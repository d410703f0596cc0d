use curv::arithmetic::Integer;
use curv::elliptic::{ECPoint, ECScalar};
use curv::hash_sha256::HSha256;
use curv::secp256_k1::{Secp256k1Point, Secp256k1Scalar};

#[test]
fn create_hash_test() {
    HSha256::hash_to_integer(&vec![]);

    let result = HSha256::hash_to_integer(&vec![&Integer::one(), &Integer::zero()]);
    assert!(result.gt(&Integer::zero()));
}

#[test]
fn create_hash_from_ge_test() {
    let point = Secp256k1Point::second_generator();
    let result1 = HSha256::hash_to_scalar(&vec![&point, &Secp256k1Point::generator()]);
    assert!(result1.to_big_int().to_str_radix(2).len() > 240);
    let result2 = HSha256::hash_to_scalar(&vec![&Secp256k1Point::generator(), &point]);
    assert_ne!(result1, result2);
    let result3 = HSha256::hash_to_scalar(&vec![&Secp256k1Point::generator(), &point]);
    assert_eq!(result2, result3);
}

#[test]
fn empty_transcript_digest_is_fixed_and_nonzero() {
    let result = HSha256::hash_to_integer(&vec![]);
    // SHA-256 of the empty byte string, read as a big-endian integer.
    let expected: Vec<u8> = vec![
        0xe3, 0xb0, 0xc4, 0x42, 0x98, 0xfc, 0x1c, 0x14, 0x9a, 0xfb, 0xf4, 0xc8, 0x99, 0x6f,
        0xb9, 0x24, 0x27, 0xae, 0x41, 0xe4, 0x64, 0x9b, 0x93, 0x4c, 0xa4, 0x95, 0x99, 0x1b,
        0x78, 0x52, 0xb8, 0x55,
    ];
    assert_eq!(result, Integer::from_bytes(&expected));
    assert!(result.gt(&Integer::zero()));
}

#[test]
fn repeated_and_interleaved_calls_agree() {
    let a = Integer::from_bytes(&vec![1, 2, 3]);
    let b = Integer::from_bytes(&vec![0xff, 0x00, 0x10]);
    let g = Secp256k1Point::generator();
    let r1 = HSha256::hash_to_integer(&vec![&a, &b]);
    let s1 = HSha256::hash_to_scalar(&vec![&g]);
    let r2 = HSha256::hash_to_integer(&vec![&a, &b]);
    let s2 = HSha256::hash_to_scalar(&vec![&g]);
    assert_eq!(r1, r2);
    assert_eq!(s1, s2);
}

#[test]
fn order_of_inputs_matters() {
    let a = Integer::from_bytes(&vec![1, 2]);
    let b = Integer::from_bytes(&vec![3, 4]);
    let ab = HSha256::hash_to_integer(&vec![&a, &b]);
    let ba = HSha256::hash_to_integer(&vec![&b, &a]);
    assert_ne!(ab, ba);
}

#[test]
fn scalar_is_reduced_below_group_order() {
    let q = Secp256k1Scalar::q();
    let g = Secp256k1Point::generator();
    let point2 = Secp256k1Point::second_generator();
    let s = HSha256::hash_to_scalar(&vec![&g, &point2]);
    assert!(q.gt(&s.to_big_int()));
    let empty = HSha256::hash_to_scalar::<Secp256k1Point>(&vec![]);
    assert!(q.gt(&empty.to_big_int()));
}

#[test]
fn from_integer_reduces_modulo_group_order() {
    let q = Secp256k1Scalar::q();
    let zero_scalar = Secp256k1Scalar::from_integer(&q);
    assert_eq!(zero_scalar.to_big_int(), Integer::zero());

    // The order ends in 0x41, so adding 5 to the last byte carries nowhere.
    let mut bytes = q.to_bytes();
    let last = bytes.pop().unwrap();
    bytes.push(last + 5);
    let five = Secp256k1Scalar::from_integer(&Integer::from_bytes(&bytes));
    assert_eq!(five.to_big_int(), Integer::from_bytes(&vec![5]));
}

#[test]
fn to_str_radix_writes_digits() {
    assert_eq!(Integer::from_bytes(&vec![0xff]).to_str_radix(2), "11111111");
    assert_eq!(Integer::from_bytes(&vec![0xab, 0xcd]).to_str_radix(16), "abcd");
    assert_eq!(Integer::zero().to_str_radix(2), "0");
    assert_eq!(Integer::from_bytes(&vec![123]).to_str_radix(10), "123");
}

#[test]
fn generator_encoding_matches_backend() {
    let mut sk_bytes = [0u8; 32];
    sk_bytes[31] = 1;
    let sk = secp256k1::SecretKey::from_byte_array(sk_bytes).unwrap();
    let pk = secp256k1::PublicKey::from_secret_key(&sk);
    let enc = Secp256k1Point::generator().to_encoded_bytes();
    assert_eq!(enc, pk.serialize_uncompressed().to_vec());
}

#[test]
fn second_generator_is_a_valid_distinct_point() {
    let point2 = Secp256k1Point::second_generator();
    let enc = point2.to_encoded_bytes();
    assert_eq!(enc.len(), 65);
    assert_eq!(enc[0], 4);
    assert_ne!(enc, Secp256k1Point::generator().to_encoded_bytes());
    assert!(secp256k1::PublicKey::from_slice(&enc).is_ok());
}

#[test]
fn second_generator_derives_from_base_point() {
    // The second generator's x coordinate is the SHA-256 digest of the base
    // point's uncompressed encoding; the point is the one with even y, which
    // a compressed encoding with prefix 2 selects.
    let g_enc = Secp256k1Point::generator().to_encoded_bytes();
    let digest = HSha256::hash_to_integer(&vec![&Integer::from_bytes(&g_enc)]);
    let x = digest.to_bytes();
    let mut template: Vec<u8> = vec![2u8];
    for _ in 0..(32 - x.len()) {
        template.push(0u8);
    }
    for b in &x {
        template.push(*b);
    }
    let pk = secp256k1::PublicKey::from_slice(&template).unwrap();
    assert_eq!(
        pk.serialize_uncompressed().to_vec(),
        Secp256k1Point::second_generator().to_encoded_bytes()
    );
}

#[test]
fn integer_comparison_follows_value() {
    let two = Integer::from_bytes(&vec![2]);
    let big = Integer::from_bytes(&vec![1, 0]);
    assert!(big.gt(&two));
    assert!(!two.gt(&big));
    assert!(!two.gt(&two));
    assert!(two.gt(&Integer::zero()));
    let padded = Integer::from_bytes(&vec![0, 0, 2]);
    assert_eq!(padded, two);
}
