use num::{BigUint, One, Zero};
use weierstrass::builder::{AirBuilder, FieldInstruction};
use weierstrass::field::FieldParameters;
use weierstrass::limbs::{limbs_to_integer, MAX_NB_LIMBS};
use weierstrass::point::{AffinePointRegister, EllipticCurve, EllipticCurveParameters};
use weierstrass::{SWCurve, WeierstrassParameters};

const fn one_limb(low: u16) -> [u16; MAX_NB_LIMBS] {
    let mut out = [0u16; MAX_NB_LIMBS];
    out[0] = low;
    out
}

const fn half_width(low: [u16; 16]) -> [u16; MAX_NB_LIMBS] {
    let mut out = [0u16; MAX_NB_LIMBS];
    let mut i = 0;
    while i < 16 {
        out[i] = low[i];
        i += 1;
    }
    out
}

#[derive(Debug, Clone, Copy, PartialEq, Eq)]
struct F17;

impl FieldParameters for F17 {
    const NB_LIMBS: usize = 1;
    const MODULUS: [u16; MAX_NB_LIMBS] = one_limb(17);
}

/// y^2 = x^3 + 7 over the integers modulo 17; 18 points.
#[derive(Debug, Clone, Copy, PartialEq, Eq)]
struct Toy;

impl EllipticCurveParameters for Toy {
    type BaseField = F17;
}

impl WeierstrassParameters for Toy {
    const A: [u16; MAX_NB_LIMBS] = one_limb(0);
    const B: [u16; MAX_NB_LIMBS] = one_limb(7);
    const GENERATOR_X: [u16; MAX_NB_LIMBS] = one_limb(1);
    const GENERATOR_Y: [u16; MAX_NB_LIMBS] = one_limb(5);

    fn prime_group_order() -> BigUint {
        BigUint::from(18u32)
    }
}

/// y^2 = x^3 + 3x + 5 over the integers modulo 17; a group of prime order 23.
#[derive(Debug, Clone, Copy, PartialEq, Eq)]
struct Prime23;

impl EllipticCurveParameters for Prime23 {
    type BaseField = F17;
}

impl WeierstrassParameters for Prime23 {
    const A: [u16; MAX_NB_LIMBS] = one_limb(3);
    const B: [u16; MAX_NB_LIMBS] = one_limb(5);
    const GENERATOR_X: [u16; MAX_NB_LIMBS] = one_limb(1);
    const GENERATOR_Y: [u16; MAX_NB_LIMBS] = one_limb(3);

    fn prime_group_order() -> BigUint {
        BigUint::from(23u32)
    }
}

#[derive(Debug, Clone, Copy, PartialEq, Eq)]
struct Fp256;

impl FieldParameters for Fp256 {
    const NB_LIMBS: usize = 16;
    const MODULUS: [u16; MAX_NB_LIMBS] = half_width([
        0xfc2f, 0xffff, 0xfffe, 0xffff, 0xffff, 0xffff, 0xffff, 0xffff, 0xffff, 0xffff, 0xffff,
        0xffff, 0xffff, 0xffff, 0xffff, 0xffff,
    ]);
}

/// y^2 = x^3 + 7 over a 256-bit prime field.
#[derive(Debug, Clone, Copy, PartialEq, Eq)]
struct Koblitz;

impl EllipticCurveParameters for Koblitz {
    type BaseField = Fp256;
}

impl WeierstrassParameters for Koblitz {
    const A: [u16; MAX_NB_LIMBS] = one_limb(0);
    const B: [u16; MAX_NB_LIMBS] = one_limb(7);
    const GENERATOR_X: [u16; MAX_NB_LIMBS] = half_width([
        0x1798, 0x16f8, 0x815b, 0x59f2, 0x28d9, 0x2dce, 0xfcdb, 0x29b, 0xb07, 0xce87, 0x6295,
        0x55a0, 0xbbac, 0xf9dc, 0x667e, 0x79be,
    ]);
    const GENERATOR_Y: [u16; MAX_NB_LIMBS] = half_width([
        0xd4b8, 0xfb10, 0xd08f, 0x9c47, 0x5419, 0xa685, 0xb448, 0xfd17, 0x8a8, 0xe11, 0xfbfc,
        0x5da4, 0xc465, 0x26a3, 0xda77, 0x483a,
    ]);

    fn prime_group_order() -> BigUint {
        hex("fffffffffffffffffffffffffffffffebaaedce6af48a03bbfd25e8cd0364141")
    }
}

fn hex(digits: &str) -> BigUint {
    BigUint::parse_bytes(digits.as_bytes(), 16).unwrap()
}

fn big(n: u32) -> BigUint {
    BigUint::from(n)
}

fn encode(n: &BigUint) -> [u16; MAX_NB_LIMBS] {
    let mask = BigUint::from(0xffffu32);
    let mut out = [0u16; MAX_NB_LIMBS];
    for (i, limb) in out.iter_mut().enumerate() {
        let digit = (n >> (16 * i)) & &mask;
        *limb = digit.to_u32_digits().first().copied().unwrap_or(0) as u16;
    }
    out
}

/// Inverse modulo a prime, or nothing where there is none.
fn inverse(b: &BigUint, modulus: &BigUint) -> Option<BigUint> {
    let inv = b.modpow(&(modulus - big(2)), modulus);
    if (b * &inv) % modulus == BigUint::one() {
        Some(inv)
    } else {
        None
    }
}

/// Fills the table row by row. `inputs` are the values of the witness rows, in order.
/// Returns nothing where a constant is not canonical or a divisor has no inverse.
fn witness(
    table: &[FieldInstruction],
    modulus: &BigUint,
    inputs: &[BigUint],
) -> Option<Vec<BigUint>> {
    let mut values: Vec<BigUint> = Vec::new();
    let mut next_input = 0;
    for row in table {
        let value = match row {
            FieldInstruction::Witness => {
                let v = inputs[next_input].clone();
                next_input += 1;
                v
            }
            FieldInstruction::Constant(c) => {
                if c >= modulus {
                    return None;
                }
                c.clone()
            }
            FieldInstruction::Add(a, b) => (&values[*a] + &values[*b]) % modulus,
            FieldInstruction::Sub(a, b) => ((&values[*a] + modulus) - &values[*b]) % modulus,
            FieldInstruction::Mul(a, b) => (&values[*a] * &values[*b]) % modulus,
            FieldInstruction::Div(a, b) => (&values[*a] * inverse(&values[*b], modulus)?) % modulus,
        };
        values.push(value);
    }
    Some(values)
}

type Point = (BigUint, BigUint);

fn point(x: u32, y: u32) -> Point {
    (big(x), big(y))
}

fn sub_mod(a: &BigUint, b: &BigUint, m: &BigUint) -> BigUint {
    ((a + m) - (b % m)) % m
}

/// The group law on affine points, computed directly on integers.
fn reference_add(p: &Point, q: &Point, a: &BigUint, m: &BigUint) -> Option<Point> {
    let slope = if p.0 == q.0 {
        if ((&p.1 + &q.1) % m).is_zero() {
            return None;
        }
        (big(3) * &p.0 * &p.0 + a) * inverse(&((big(2) * &p.1) % m), m)? % m
    } else {
        sub_mod(&q.1, &p.1, m) * inverse(&sub_mod(&q.0, &p.0, m), m)? % m
    };
    let x = sub_mod(&sub_mod(&(&slope * &slope), &p.0, m), &q.0, m);
    let y = sub_mod(&(&slope * sub_mod(&p.0, &x, m)), &p.1, m);
    Some((x, y))
}

fn is_on_curve(p: &Point, a: &BigUint, b: &BigUint, m: &BigUint) -> bool {
    (&p.1 * &p.1) % m == (&p.0 * &p.0 * &p.0 + a * &p.0 + b) % m
}

fn read<E: EllipticCurveParameters>(values: &[BigUint], r: &AffinePointRegister<E>) -> Point {
    (values[r.x.index()].clone(), values[r.y.index()].clone())
}

/// Runs the addition gadget on two input points and evaluates the result.
fn gadget_add<E: WeierstrassParameters>(p: &Point, q: &Point) -> Option<Point> {
    let mut builder = AirBuilder::<E::BaseField>::new();
    let p_reg = builder.alloc_ec_point::<SWCurve<E>>();
    let q_reg = builder.alloc_ec_point::<SWCurve<E>>();
    let sum = SWCurve::<E>::ec_add(&mut builder, &p_reg, &q_reg);
    let inputs = vec![p.0.clone(), p.1.clone(), q.0.clone(), q.1.clone()];
    let values = witness(builder.instructions(), &E::BaseField::modulus(), &inputs)?;
    Some(read(&values, &sum))
}

/// Runs the doubling gadget on an input point and evaluates the result.
fn gadget_double<E: WeierstrassParameters>(p: &Point) -> Option<Point> {
    let mut builder = AirBuilder::<E::BaseField>::new();
    let p_reg = builder.alloc_ec_point::<SWCurve<E>>();
    let double = SWCurve::<E>::ec_double(&mut builder, &p_reg);
    let inputs = vec![p.0.clone(), p.1.clone()];
    let values = witness(builder.instructions(), &E::BaseField::modulus(), &inputs)?;
    Some(read(&values, &double))
}

#[test]
fn builder_starts_empty() {
    let builder = AirBuilder::<F17>::new();
    assert!(builder.instructions().is_empty());
}

#[test]
fn allocation_appends_witness_rows() {
    let mut builder = AirBuilder::<F17>::new();
    let first = builder.alloc_field_register();
    let second = builder.alloc_field_register();
    let p = builder.alloc_ec_point::<SWCurve<Toy>>();
    assert_eq!(first.index(), 0);
    assert_eq!(second.index(), 1);
    assert_eq!(p.x.index(), 2);
    assert_eq!(p.y.index(), 3);
    assert_eq!(
        builder.instructions(),
        &vec![
            FieldInstruction::Witness,
            FieldInstruction::Witness,
            FieldInstruction::Witness,
            FieldInstruction::Witness,
        ]
    );
}

#[test]
fn field_operations_append_one_row_each() {
    let mut builder = AirBuilder::<F17>::new();
    let a = builder.alloc_field_register();
    let b = builder.alloc_field_register();
    let sum = builder.fp_add(&a, &b);
    let difference = builder.fp_sub(&b, &a);
    let product = builder.fp_mul(&sum, &difference);
    let quotient = builder.fp_div(&product, &b);
    let constant = builder.fp_constant(&big(11));
    assert_eq!(
        (sum.index(), difference.index(), product.index(), quotient.index(), constant.index()),
        (2, 3, 4, 5, 6)
    );
    assert_eq!(
        builder.instructions()[2..],
        [
            FieldInstruction::Add(0, 1),
            FieldInstruction::Sub(1, 0),
            FieldInstruction::Mul(2, 3),
            FieldInstruction::Div(4, 1),
            FieldInstruction::Constant(big(11)),
        ]
    );
}

#[test]
fn field_operations_evaluate_in_the_field() {
    let mut builder = AirBuilder::<F17>::new();
    let a = builder.alloc_field_register();
    let b = builder.alloc_field_register();
    builder.fp_add(&a, &b);
    builder.fp_sub(&a, &b);
    builder.fp_mul(&a, &b);
    builder.fp_div(&a, &b);
    let values = witness(builder.instructions(), &big(17), &[big(5), big(14)]).unwrap();
    // 5 + 14 = 2, 5 - 14 = 8, 5 * 14 = 2, 5 / 14 = 5 * 11 = 4 (mod 17)
    assert_eq!(values[2..], [big(2), big(8), big(2), big(4)]);
}

#[test]
fn registers_are_plain_copies() {
    let mut builder = AirBuilder::<F17>::new();
    let a = builder.alloc_field_register();
    let copy = a;
    assert_eq!(copy, a);
    assert_eq!(copy.clone().index(), 0);
    let p = AffinePointRegister::<SWCurve<Toy>>::new(a, copy);
    let q = p;
    assert_eq!(q, p);
    assert_eq!(q.clone().y.index(), 0);
}

#[test]
fn slope_emits_two_differences_and_a_quotient() {
    let mut builder = AirBuilder::<F17>::new();
    let p = builder.alloc_ec_point::<SWCurve<Toy>>();
    let q = builder.alloc_ec_point::<SWCurve<Toy>>();
    let slope = builder.sw_slope::<Toy>(&p, &q);
    assert_eq!(slope.index(), 6);
    assert_eq!(
        builder.instructions()[4..],
        [FieldInstruction::Sub(3, 1), FieldInstruction::Sub(2, 0), FieldInstruction::Div(4, 5)]
    );
    // slope through (1, 5) and (2, 7) is 2
    let inputs = [big(1), big(5), big(2), big(7)];
    let values = witness(builder.instructions(), &big(17), &inputs).unwrap();
    assert_eq!(values[slope.index()], big(2));
}

#[test]
fn tangent_emits_the_derivative_quotient() {
    let mut builder = AirBuilder::<F17>::new();
    let p = builder.alloc_ec_point::<SWCurve<Prime23>>();
    let a = builder.fp_constant(&big(3));
    let three = builder.fp_constant(&big(3));
    let slope = builder.sw_tangent::<Prime23>(&p, &a, &three);
    assert_eq!(slope.index(), 8);
    assert_eq!(
        builder.instructions()[4..],
        [
            FieldInstruction::Mul(0, 0),
            FieldInstruction::Mul(4, 3),
            FieldInstruction::Add(5, 2),
            FieldInstruction::Add(1, 1),
            FieldInstruction::Div(6, 7),
        ]
    );
    // tangent at (1, 3): (3 * 1 + 3) / 6 = 1
    let values = witness(builder.instructions(), &big(17), &[big(1), big(3)]).unwrap();
    assert_eq!(values[slope.index()], big(1));
}

#[test]
fn add_emits_slope_then_third_point() {
    let mut builder = AirBuilder::<F17>::new();
    let p = builder.alloc_ec_point::<SWCurve<Toy>>();
    let q = builder.alloc_ec_point::<SWCurve<Toy>>();
    let sum = SWCurve::<Toy>::ec_add(&mut builder, &p, &q);
    assert_eq!((sum.x.index(), sum.y.index()), (9, 12));
    assert_eq!(
        builder.instructions()[4..],
        [
            FieldInstruction::Sub(3, 1),
            FieldInstruction::Sub(2, 0),
            FieldInstruction::Div(4, 5),
            FieldInstruction::Mul(6, 6),
            FieldInstruction::Sub(7, 0),
            FieldInstruction::Sub(8, 2),
            FieldInstruction::Sub(0, 9),
            FieldInstruction::Mul(6, 10),
            FieldInstruction::Sub(11, 1),
        ]
    );
}

#[test]
fn adapter_and_builder_emit_the_same_addition() {
    let mut direct = AirBuilder::<F17>::new();
    let p = direct.alloc_ec_point::<SWCurve<Toy>>();
    let q = direct.alloc_ec_point::<SWCurve<Toy>>();
    let sum = direct.sw_add::<Toy>(&p, &q);
    let mut adapted = AirBuilder::<F17>::new();
    let p_again = adapted.alloc_ec_point::<SWCurve<Toy>>();
    let q_again = adapted.alloc_ec_point::<SWCurve<Toy>>();
    let sum_again = SWCurve::<Toy>::ec_add(&mut adapted, &p_again, &q_again);
    assert_eq!(sum, sum_again);
    assert_eq!(direct.instructions(), adapted.instructions());
}

#[test]
fn double_emits_constants_then_tangent_then_third_point() {
    let mut builder = AirBuilder::<F17>::new();
    let p = builder.alloc_ec_point::<SWCurve<Prime23>>();
    let double = SWCurve::<Prime23>::ec_double(&mut builder, &p);
    assert_eq!((double.x.index(), double.y.index()), (11, 14));
    assert_eq!(
        builder.instructions()[2..],
        [
            FieldInstruction::Constant(big(3)),
            FieldInstruction::Constant(big(3)),
            FieldInstruction::Mul(0, 0),
            FieldInstruction::Mul(4, 3),
            FieldInstruction::Add(5, 2),
            FieldInstruction::Add(1, 1),
            FieldInstruction::Div(6, 7),
            FieldInstruction::Mul(8, 8),
            FieldInstruction::Sub(9, 0),
            FieldInstruction::Sub(10, 0),
            FieldInstruction::Sub(0, 11),
            FieldInstruction::Mul(8, 12),
            FieldInstruction::Sub(13, 1),
        ]
    );
}

#[test]
fn double_injects_its_constants_on_every_call() {
    let mut builder = AirBuilder::<F17>::new();
    let p = builder.alloc_ec_point::<SWCurve<Toy>>();
    let once = SWCurve::<Toy>::ec_double(&mut builder, &p);
    let twice = SWCurve::<Toy>::ec_double(&mut builder, &once);
    assert_eq!((twice.x.index(), twice.y.index()), (24, 27));
    let constants = builder
        .instructions()
        .iter()
        .filter(|row| matches!(row, FieldInstruction::Constant(_)))
        .count();
    assert_eq!(constants, 4);
    assert_eq!(builder.instructions().len(), 28);
}

#[test]
fn generator_emits_two_constants() {
    let mut builder = AirBuilder::<F17>::new();
    builder.alloc_field_register();
    let g = SWCurve::<Prime23>::ec_generator(&mut builder);
    assert_eq!((g.x.index(), g.y.index()), (1, 2));
    assert_eq!(
        builder.instructions()[1..],
        [FieldInstruction::Constant(big(1)), FieldInstruction::Constant(big(3))]
    );
}

#[test]
fn generator_holds_the_declared_coordinates_on_every_call() {
    let mut builder = AirBuilder::<Fp256>::new();
    let first = SWCurve::<Koblitz>::ec_generator(&mut builder);
    let p = builder.alloc_ec_point::<SWCurve<Koblitz>>();
    let second = SWCurve::<Koblitz>::ec_generator(&mut builder);
    let declared = SWCurve::<Koblitz>::generator();
    let inputs = [declared.x.clone(), declared.y.clone()];
    let values = witness(builder.instructions(), &Fp256::modulus(), &inputs).unwrap();
    assert_eq!(read(&values, &first), (declared.x.clone(), declared.y.clone()));
    assert_eq!(read(&values, &second), read(&values, &first));
    assert_eq!(read(&values, &p), read(&values, &first));
    assert_eq!(
        declared.x,
        hex("79be667ef9dcbbac55a06295ce870b07029bfcdb2dce28d959f2815b16f81798")
    );
    assert_eq!(
        declared.y,
        hex("483ada7726a3c4655da4fbfc0e1108a8fd17b448a68554199c47d08ffb10d4b8")
    );
}

#[test]
fn gadgets_leave_earlier_rows_untouched() {
    let mut builder = AirBuilder::<F17>::new();
    let p = builder.alloc_ec_point::<SWCurve<Toy>>();
    let q = builder.alloc_ec_point::<SWCurve<Toy>>();
    let before_add = builder.instructions().clone();
    let sum = SWCurve::<Toy>::ec_add(&mut builder, &p, &q);
    let before_double = builder.instructions().clone();
    assert_eq!(before_double[..before_add.len()], before_add[..]);
    SWCurve::<Toy>::ec_double(&mut builder, &sum);
    let before_generator = builder.instructions().clone();
    assert_eq!(before_generator[..before_double.len()], before_double[..]);
    SWCurve::<Toy>::ec_generator(&mut builder);
    assert_eq!(builder.instructions()[..before_generator.len()], before_generator[..]);
    assert_eq!(builder.instructions().len(), 4 + 9 + 13 + 2);
}

#[test]
fn add_matches_the_reference_on_the_toy_curve() {
    let (a, m) = (big(0), big(17));
    let p = point(1, 5);
    let q = point(2, 7);
    let sum = gadget_add::<Toy>(&p, &q).unwrap();
    assert_eq!(sum, point(1, 12));
    let reference = reference_add(&p, &q, &a, &m).unwrap();
    assert_eq!(sum, reference);
    assert_eq!(encode(&sum.0), encode(&reference.0));
    assert_eq!(encode(&sum.1), encode(&reference.1));
    assert_eq!(encode(&sum.1), one_limb(12));
    assert_eq!(limbs_to_integer(&encode(&sum.1)), big(12));
}

#[test]
fn add_matches_the_reference_on_every_pair_of_the_toy_curve() {
    let (a, b, m) = (big(0), big(7), big(17));
    let mut points: Vec<Point> = Vec::new();
    for x in 0..17 {
        for y in 0..17 {
            if is_on_curve(&point(x, y), &a, &b, &m) {
                points.push(point(x, y));
            }
        }
    }
    assert_eq!(points.len(), 17);
    for p in &points {
        for q in &points {
            let sum = gadget_add::<Toy>(p, q);
            if p.0 == q.0 {
                assert_eq!(sum, None);
            } else {
                let sum = sum.unwrap();
                assert_eq!(Some(sum.clone()), reference_add(p, q, &a, &m));
                assert!(is_on_curve(&sum, &a, &b, &m));
                assert_eq!(Some(sum), gadget_add::<Toy>(q, p));
            }
        }
    }
}

#[test]
fn add_commutes_on_the_toy_curve() {
    let p = point(5, 8);
    let q = point(12, 16);
    let forward = gadget_add::<Toy>(&p, &q).unwrap();
    let backward = gadget_add::<Toy>(&q, &p).unwrap();
    assert_eq!(forward, backward);
    assert_eq!(Some(forward), reference_add(&p, &q, &big(0), &big(17)));
}

#[test]
fn double_matches_the_tangent_formula() {
    let p = point(1, 5);
    let double = gadget_double::<Toy>(&p).unwrap();
    assert_eq!(double, point(2, 10));
    assert_eq!(Some(double.clone()), reference_add(&p, &p, &big(0), &big(17)));
    assert!(is_on_curve(&double, &big(0), &big(7), &big(17)));
    let q = point(2, 6);
    let double = gadget_double::<Prime23>(&q).unwrap();
    assert_eq!(double, point(5, 3));
    assert!(is_on_curve(&double, &big(3), &big(5), &big(17)));
}

#[test]
fn double_matches_the_reference_on_every_point_of_the_prime_order_curve() {
    let (a, b, m) = (big(3), big(5), big(17));
    let mut count = 0;
    for x in 0..17 {
        for y in 0..17 {
            let p = point(x, y);
            if is_on_curve(&p, &a, &b, &m) {
                let double = gadget_double::<Prime23>(&p).unwrap();
                assert_eq!(Some(double.clone()), reference_add(&p, &p, &a, &m));
                assert!(is_on_curve(&double, &a, &b, &m));
                count += 1;
            }
        }
    }
    assert_eq!(count, 22);
}

#[test]
fn addition_is_associative_on_sample_points_of_the_prime_order_curve() {
    let (p, q, r) = (point(1, 3), point(2, 6), point(4, 8));
    let pq = gadget_add::<Prime23>(&p, &q).unwrap();
    let qr = gadget_add::<Prime23>(&q, &r).unwrap();
    assert_eq!(pq, point(6, 16));
    assert_eq!(qr, point(12, 1));
    let left = gadget_add::<Prime23>(&pq, &r).unwrap();
    let right = gadget_add::<Prime23>(&p, &qr).unwrap();
    assert_eq!(left, right);
    assert_eq!(left, point(6, 1));
}

#[test]
fn chained_gadgets_compute_multiples_of_the_generator() {
    // 2G, then 3G = 2G + G, then 6G = 2 * 3G, in one system.
    let mut builder = AirBuilder::<F17>::new();
    let g = SWCurve::<Prime23>::ec_generator(&mut builder);
    let g2 = SWCurve::<Prime23>::ec_double(&mut builder, &g);
    let g3 = SWCurve::<Prime23>::ec_add(&mut builder, &g2, &g);
    let g6 = SWCurve::<Prime23>::ec_double(&mut builder, &g3);
    let values = witness(builder.instructions(), &big(17), &[]).unwrap();
    assert_eq!(read(&values, &g), point(1, 3));
    assert_eq!(read(&values, &g2), point(16, 16));
    assert_eq!(read(&values, &g3), point(4, 8));
    assert_eq!(read(&values, &g6), point(9, 9));
}

#[test]
fn add_of_opposite_points_is_infeasible() {
    // (1, 5) and (1, 12) share their abscissa: their sum is the point at infinity.
    assert_eq!(gadget_add::<Toy>(&point(1, 5), &point(1, 12)), None);
    assert_eq!(gadget_add::<Toy>(&point(1, 12), &point(1, 5)), None);
}

#[test]
fn add_of_a_point_to_itself_is_infeasible() {
    assert_eq!(gadget_add::<Toy>(&point(2, 7), &point(2, 7)), None);
    assert_eq!(gadget_double::<Toy>(&point(2, 7)), Some(point(12, 16)));
}

#[test]
fn double_of_a_point_of_order_two_is_infeasible() {
    assert!(is_on_curve(&point(3, 0), &big(0), &big(7), &big(17)));
    assert_eq!(gadget_double::<Toy>(&point(3, 0)), None);
}

#[test]
fn double_of_the_generator_of_a_256_bit_curve() {
    let g = SWCurve::<Koblitz>::generator();
    let g = (g.x, g.y);
    let double = gadget_double::<Koblitz>(&g).unwrap();
    assert_eq!(
        double.0,
        hex("c6047f9441ed7d6d3045406e95c07cd85c778e4b8cef3ca7abac09b95c709ee5")
    );
    assert_eq!(
        double.1,
        hex("1ae168fea63dc339a3c58419466ceaeef7f632653266d0e1236431a950cfe52a")
    );
    let m = Fp256::modulus();
    assert_eq!(Some(double.clone()), reference_add(&g, &g, &BigUint::zero(), &m));
    let triple = gadget_add::<Koblitz>(&double, &g).unwrap();
    assert_eq!(Some(triple.clone()), reference_add(&double, &g, &BigUint::zero(), &m));
    assert_eq!(Some(triple.clone()), gadget_add::<Koblitz>(&g, &double));
    assert!(is_on_curve(&triple, &Koblitz::a_int(), &Koblitz::b_int(), &m));
}
