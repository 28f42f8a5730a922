use danake::constants::{base, blinding_base};
use danake::range::commit;
use danake::wallet::Randomness;
use danake::{CompressedPoint, Point, Scalar, Tag};

const ORDER_MINUS_ONE: [u8; 32] = [
    0xec, 0xd3, 0xf5, 0x5c, 0x1a, 0x63, 0x12, 0x58, 0xd6, 0x9c, 0xf7, 0xa2, 0xde, 0xf9, 0xde, 0x14,
    0x00, 0x00, 0x00, 0x00, 0x00, 0x00, 0x00, 0x00, 0x00, 0x00, 0x00, 0x00, 0x00, 0x00, 0x00, 0x10,
];

fn scalar_bytes(x: u64) -> [u8; 32] {
    let mut bytes = [0u8; 32];
    bytes[..8].copy_from_slice(&x.to_le_bytes());
    bytes
}

#[test]
fn scalar_from_u64_is_encoded_least_significant_byte_first() {
    assert_eq!(Scalar::from_u64(0).to_bytes(), [0u8; 32]);
    assert_eq!(Scalar::from_u64(1).to_bytes(), scalar_bytes(1));
    let x = 0x0102_0304_0506_0708;
    assert_eq!(Scalar::from_u64(x).to_bytes(), scalar_bytes(x));
    assert_eq!(Scalar::from_u64(u64::MAX).to_bytes(), scalar_bytes(u64::MAX));
    assert_eq!(Scalar::from_u64(258).to_bytes()[..3], [2u8, 1, 0]);
}

#[test]
fn scalar_arithmetic_is_modulo_the_group_order() {
    let one = Scalar::from_u64(1);
    let two = Scalar::from_u64(2);
    assert_eq!(Scalar::from_u64(3).add(&Scalar::from_u64(4)), Scalar::from_u64(7));
    assert_eq!(Scalar::from_u64(6).mul(&Scalar::from_u64(7)), Scalar::from_u64(42));
    assert_eq!(Scalar::from_u64(u64::MAX).add(&one).to_bytes()[8], 1);
    // -1 is the order less one; adding two wraps around to one.
    let minus_one = one.neg();
    assert_eq!(minus_one.to_bytes(), ORDER_MINUS_ONE);
    assert_eq!(minus_one.add(&two), one);
    assert_eq!(minus_one.add(&one), Scalar::from_u64(0));
    assert_eq!(minus_one.mul(&minus_one), one);
    assert_eq!(minus_one.mul(&two).add(&two), Scalar::from_u64(0));
    assert_eq!(Scalar::from_u64(0).neg(), Scalar::from_u64(0));
    assert_eq!(Scalar::from_u64(5).neg().neg(), Scalar::from_u64(5));
}

#[test]
fn random_scalars_are_reduced_and_differ() {
    let mut rng = rand::thread_rng();
    let a = Scalar::random(&mut rng);
    let b = Scalar::random(&mut rng);
    assert_ne!(a, b);
    assert!(a.to_bytes()[31] <= 0x10);
    assert_eq!(a.add(&Scalar::from_u64(0)), a);
    assert_eq!(a.add(&a.neg()), Scalar::from_u64(0));
}

/// Whether the number that `bytes` encodes, least significant byte first, is below the order.
fn below_order(bytes: [u8; 32]) -> bool {
    let mut order = ORDER_MINUS_ONE;
    order[0] += 1;
    for i in (0..32).rev() {
        if bytes[i] != order[i] {
            return bytes[i] < order[i];
        }
    }
    false
}

#[test]
fn drawn_scalars_are_below_the_group_order() {
    assert!(below_order(ORDER_MINUS_ONE));
    assert!(!below_order([0xff; 32]));
    let mut rng = rand::thread_rng();
    for _ in 0..64 {
        assert!(below_order(Scalar::random(&mut rng).to_bytes()));
    }
    let drawn = Randomness::draw(&mut rng);
    let all = [drawn.t, drawn.w_blinding, drawn.r_Q, drawn.n_prime, drawn.d, drawn.r_w, drawn.r_n];
    for (i, a) in all.iter().enumerate() {
        assert!(below_order(a.to_bytes()));
        for b in &all[i + 1..] {
            assert_ne!(a, b);
        }
    }
}

#[test]
fn generators_have_their_known_encodings() {
    assert_eq!(
        base().compress().to_bytes(),
        [
            0xe2, 0xf2, 0xae, 0x0a, 0x6a, 0xbc, 0x4e, 0x71, 0xa8, 0x84, 0xa9, 0x61, 0xc5, 0x00,
            0x51, 0x5f, 0x58, 0xe3, 0x0b, 0x6a, 0xa5, 0x82, 0xdd, 0x8d, 0xb6, 0xa6, 0x59, 0x45,
            0xe0, 0x8d, 0x2d, 0x76,
        ]
    );
    assert_eq!(
        blinding_base().compress().to_bytes(),
        [
            0x8c, 0x92, 0x40, 0xb4, 0x56, 0xa9, 0xe6, 0xdc, 0x65, 0xc3, 0x77, 0xa1, 0x04, 0x8d,
            0x74, 0x5f, 0x94, 0xa0, 0x8c, 0xdb, 0x7f, 0x44, 0xcb, 0xcd, 0x7b, 0x46, 0xf3, 0x40,
            0x48, 0x87, 0x11, 0x34,
        ]
    );
}

#[test]
fn point_operations_agree_with_each_other() {
    let b = base();
    let h = blinding_base();
    let two = Scalar::from_u64(2);
    let three = Scalar::from_u64(3);
    let five = Scalar::from_u64(5);
    assert_eq!(b.add(&b), b.mul(&two));
    assert_ne!(b.add(&b), b);
    assert_eq!(b.add(&h), h.add(&b));
    assert_ne!(b.add(&h), b.add(&b));
    assert_eq!(b.mul(&two).add(&b.mul(&three)), b.mul(&five));
    assert_eq!(b.mul(&five).sub(&b.mul(&two)), b.mul(&three));
    assert_ne!(b.sub(&h), h.sub(&b));
    assert_eq!(b.mul(&Scalar::from_u64(1)), b);
    assert_eq!(b.mul(&two).mul(&three), b.mul(&Scalar::from_u64(6)));
    assert_eq!(b.sub(&b).compress().to_bytes(), [0u8; 32]);
    assert_eq!(b.mul(&Scalar::from_u64(0)).compress().to_bytes(), [0u8; 32]);
    assert_eq!(b.mul(&Scalar::from_u64(1).neg()).add(&b).compress().to_bytes(), [0u8; 32]);
}

#[test]
fn multiscalar_products_are_sums_of_products() {
    let b = base();
    let h = blinding_base();
    let p = b.add(&h);
    let q = b.sub(&h).sub(&h);
    let s = [11u64, 22, 33, 44].map(Scalar::from_u64);
    let two = b.mul(&s[0]).add(&h.mul(&s[1]));
    let three = two.add(&p.mul(&s[2]));
    let four = three.add(&q.mul(&s[3]));
    assert_eq!(Point::combine2(&s[0], &b, &s[1], &h), two);
    assert_eq!(Point::combine3(&s[0], &b, &s[1], &h, &s[2], &p), three);
    assert_eq!(Point::combine4(&s[0], &b, &s[1], &h, &s[2], &p, &s[3], &q), four);
    assert_ne!(Point::combine2(&s[1], &b, &s[0], &h), two);
}

#[test]
fn commitment_is_value_times_base_plus_blinding_times_blinding_base() {
    let b = base();
    let h = blinding_base();
    let p = b.mul(&Scalar::from_u64(77));
    let v = Scalar::from_u64(1000);
    let r = Scalar::from_u64(123456789);
    assert_eq!(commit(&p, &v, &r), p.mul(&v).add(&h.mul(&r)));
    assert_eq!(commit(&b, &v, &r), Point::combine2(&v, &b, &r, &h));
    assert_ne!(commit(&b, &v, &r), commit(&b, &r, &v));
    // Commitments with one blinding differ by the difference of the values.
    let c = Scalar::from_u64(2000);
    assert_eq!(commit(&p, &v.add(&c), &r), commit(&p, &v, &r).add(&p.mul(&c)));
}

#[test]
fn decompression_accepts_exactly_the_encodings_of_points() {
    let b = base();
    let encoding = b.compress();
    assert_eq!(encoding.decompress(), Some(b));
    assert_eq!(CompressedPoint::from_bytes(encoding.to_bytes()), encoding);
    assert_eq!(CompressedPoint::from_bytes([0u8; 32]).decompress(), Some(b.sub(&b)));
    assert_eq!(CompressedPoint::from_bytes([0xff; 32]).decompress(), None);
    let mut odd = [0u8; 32];
    odd[0] = 1;
    assert_eq!(CompressedPoint::from_bytes(odd).decompress(), None);
    let mut not_on_curve = [0u8; 32];
    not_on_curve[0] = 2;
    assert_eq!(CompressedPoint::from_bytes(not_on_curve).decompress(), None);
}

#[test]
fn randomizing_a_tag_scales_both_points_by_one_scalar() {
    let b = base();
    let tag = Tag { P: b.mul(&Scalar::from_u64(5)), Q: b.mul(&Scalar::from_u64(35)) };
    let r = Scalar::from_u64(9);
    let randomized = tag.randomize_with(&r);
    assert_eq!(randomized.P, b.mul(&Scalar::from_u64(45)));
    assert_eq!(randomized.Q, b.mul(&Scalar::from_u64(315)));
    assert_eq!(randomized.Q, randomized.P.mul(&Scalar::from_u64(7)));
}

#[test]
fn randomizations_are_equal_exactly_when_their_scalars_are() {
    let b = base();
    let tag = Tag { P: b.mul(&Scalar::from_u64(5)), Q: b.mul(&Scalar::from_u64(35)) };
    let same = |x: Tag, y: Tag| (x.P == y.P, x.Q == y.Q);
    let (nine, ten) = (Scalar::from_u64(9), Scalar::from_u64(10));
    assert_eq!(same(tag.randomize_with(&nine), tag.randomize_with(&nine)), (true, true));
    assert_eq!(same(tag.randomize_with(&nine), tag.randomize_with(&ten)), (false, false));
    // 10 - 1 is 9 modulo the order.
    let also_nine = ten.add(&Scalar::from_u64(1).neg());
    assert_eq!(same(tag.randomize_with(&nine), tag.randomize_with(&also_nine)), (true, true));
    // The scalar 1 gives the tag itself, and no other scalar does.
    assert_eq!(same(tag.randomize_with(&Scalar::from_u64(1)), tag), (true, true));
    assert_eq!(same(tag.randomize_with(&Scalar::from_u64(2)), tag), (false, false));
    assert_eq!(same(tag.randomize_with(&Scalar::from_u64(1).neg()), tag), (false, false));
}

#[test]
fn two_randomizations_of_a_tag_differ_and_keep_its_relation() {
    let b = base();
    let seven = Scalar::from_u64(7);
    let tag = Tag { P: b, Q: b.mul(&seven) };
    let mut rng = rand::thread_rng();
    let first = tag.randomize(&mut rng);
    let second = tag.randomize(&mut rng);
    assert_ne!(first.P, second.P);
    assert_ne!(first.Q, second.Q);
    assert_ne!(first.P, tag.P);
    assert_eq!(first.Q, first.P.mul(&seven));
    assert_eq!(second.Q, second.P.mul(&seven));
}
