use lazylist::multivector::{
    Bivec, Complex, Just, Multivector3, Nil, Rotor, Se, Se1, Se12, Se123, Se2, Se23, Se3, Se31,
    Sphere, Vec3, VecScale, VecSum, W,
};
use std::mem::size_of;

#[test]
fn multiply_in_parts() {
    let a = Multivector3 {
        e: 2,
        e1: 1, e2: 7, e3: -5,
        e12: -3, e31: 5, e23: 2,
        e123: -7,
    };
    let scalar = Se(1);
    assert_eq!(scalar * &a, a);

    let e = Se(10);
    let re = e * &a;
    assert_eq!(re, Multivector3 {
        e: 20, e1: 10, e2: 70, e3: -50, e12: -30, e31: 50, e23: 20, e123: -70
    });
    let e1 = Se1(2);
    let re1 = e1 * &a;
    assert_eq!(re1, Multivector3 {
        e: 2, e1: 4, e2: -6, e3: -10, e12: 14, e31: 10, e23: -14, e123: 4
    });
    let e2 = Se2(3);
    let re2 = e2 * &a;
    assert_eq!(re2, Multivector3 {
        e: 21, e1: 9, e2: 6, e3: 6, e12: -3, e31: -21, e23: -15, e123: 15
    });
    let e3 = Se3(4);
    let re3 = e3 * &a;
    assert_eq!(re3, Multivector3 {
        e: -20, e1: 20, e2: -8, e3: 8, e12: -28, e31: 4, e23: -28, e123: -12
    });
    let e12 = Se12(1);
    let re12 = e12 * &a;
    assert_eq!(re12, Multivector3 {
        e: 3, e1: 7, e2: -1, e3: 7, e12: 2, e31: -2, e23: 5, e123: -5
    });
    let e31 = Se31(6);
    let re31 = e31 * &a;
    assert_eq!(re31, Multivector3 {
        e: -30, e1: 30, e2: 42, e3: 6, e12: 12, e31: 12, e23: 18, e123: 42
    });
    let e23 = Se23(2);
    let re23 = e23 * &a;
    assert_eq!(re23, Multivector3 {
        e: -4, e1: 14, e2: -10, e3: -14, e12: -10, e31: -6, e23: 4, e123: 2
    });
    let e123 = Se123(0);
    let re123 = e123 * &a;
    assert_eq!(re123, Multivector3 {
         e: 0, e1: 0, e2: 0, e3: 0, e12: 0, e31: 0, e23: 0, e123: 0
    });

    assert_eq!((re, re1, re2, re3, re12, re31, re23, re123).value(), Multivector3 {
         e: -8, e1: 94, e2: 93, e3: -47, e12: -43, e31: 47, e23: -10, e123: -24
    });
}

#[test]
fn add_full() {
    let b = Multivector3 {
        e: Just(10),
        e1: Just(2), e2: Just(3), e3: Just(4),
        e12: Just(1), e31: Just(6), e23: Just(2),
        e123: Just(0),
    };
    let a = Multivector3 {
        e: Just(2),
        e1: Just(1), e2: Just(7), e3: Just(-5),
        e12: Just(-3), e31: Just(5), e23: Just(2),
        e123: Just(-7),
    };
    let result = Multivector3 {
        e: Just(12),
        e1: Just(3), e2: Just(10), e3: Just(-1),
        e12: Just(-2), e31: Just(11), e23: Just(4),
        e123: Just(-7)
    };
    assert_eq!(b + a, result);
}

fn mul_scalar(a: W<f64>, b: W<f64>) -> W<f64> {
    &a * &b
}

fn mul_vector(a: Vec3<f64>, b: Vec3<f64>) -> Rotor<f64> {
    &a * &b
}

fn mul_complex(a: Complex<f64>, b: Complex<f64>) -> Complex<f64> {
    &a * &b
}

#[test]
fn miltivector_compile_tests() {
    let _scalar: fn(W<f64>, W<f64>) -> W<f64> = mul_scalar;
    let _vector: fn(Vec3<f64>, Vec3<f64>) -> Rotor<f64> = mul_vector;
    let _complex: fn(Complex<f64>, Complex<f64>) -> Complex<f64> = mul_complex;
}

#[test]
fn sizes() {
    assert_eq!(size_of::<W<f64>>(), size_of::<f64>());
    assert_eq!(size_of::<Vec3<f64>>(), size_of::<f64>() * 3);
    assert_eq!(size_of::<Bivec<f64>>(), size_of::<f64>() * 3);
    assert_eq!(size_of::<Sphere<f64>>(), size_of::<f64>() * 4);
}

#[test]
fn sparse_product_keeps_only_what_is_there() {
    let a: W<i32> = Multivector3 {
        e: Just(6),
        e1: Nil(), e2: Nil(), e3: Nil(),
        e12: Nil(), e31: Nil(), e23: Nil(),
        e123: Nil(),
    };
    let b: W<i32> = Multivector3 {
        e: Just(7),
        e1: Nil(), e2: Nil(), e3: Nil(),
        e12: Nil(), e31: Nil(), e23: Nil(),
        e123: Nil(),
    };
    let p: W<i32> = &a * &b;
    assert_eq!(p.e, Just(42));
}

#[test]
fn vectors_multiply_to_a_rotor() {
    let a: Vec3<i32> = Multivector3 {
        e: Nil(), e1: Just(1), e2: Just(2), e3: Just(3),
        e12: Nil(), e31: Nil(), e23: Nil(), e123: Nil(),
    };
    let b: Vec3<i32> = Multivector3 {
        e: Nil(), e1: Just(4), e2: Just(5), e3: Just(6),
        e12: Nil(), e31: Nil(), e23: Nil(), e123: Nil(),
    };
    let r: Rotor<i32> = &a * &b;
    // The scalar part is the dot product, the bivector part the wedge product.
    assert_eq!(r.e, Just(1 * 4 + 2 * 5 + 3 * 6));
    assert_eq!(r.e12, Just(1 * 5 - 2 * 4));
    assert_eq!(r.e31, Just(3 * 4 - 1 * 6));
    assert_eq!(r.e23, Just(2 * 6 - 3 * 5));
}

#[test]
fn just_and_nil_arithmetic() {
    assert_eq!(Just(2) + Just(3), Just(5));
    assert_eq!(Just(2) + Nil(), Just(2));
    assert_eq!(Nil() + Just(3), Just(3));
    assert_eq!(Nil() + Nil(), Nil());
    assert_eq!(Just(2) * Just(3), Just(6));
    assert_eq!(Just(2) * Nil(), Nil());
    assert_eq!(Nil() * Just(3), Nil());
    assert_eq!(Nil() * Nil(), Nil());
    assert_eq!(-Just(4), Just(-4));
    assert_eq!(-Nil(), Nil());
}

#[test]
fn scale_multiplies_place_by_place() {
    let a = (1, 2, 3, 4, 5, 6, 7, 8);
    let b = (8, 7, 6, 5, 4, 3, 2, 1);
    assert_eq!(VecScale::value((a, b)), (8, 14, 18, 20, 20, 18, 14, 8));
}

#[test]
fn sum_adds_from_the_left() {
    assert_eq!(VecSum::value((1, 2)), 3);
    assert_eq!(VecSum::value((1, 2, 3, 4, 5, 6, 7, 8)), 36);
}
