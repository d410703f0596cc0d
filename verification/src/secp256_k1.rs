use vstd::prelude::*;
use crate::arithmetic::{
    Integer, be_val, lemma_be_val_lower, lemma_canonical_unique, lemma_pow256_pos, pow256,
};
use crate::elliptic::{ECPoint, ECScalar};
use crate::hash_sha256::hash_to_scalar_value;

verus! {

/// The order of the secp256k1 group, big-endian.
pub open spec fn q_bytes() -> Seq<u8> {
    seq![
        0xffu8, 0xff, 0xff, 0xff, 0xff, 0xff, 0xff, 0xff,
        0xff, 0xff, 0xff, 0xff, 0xff, 0xff, 0xff, 0xfe,
        0xba, 0xae, 0xdc, 0xe6, 0xaf, 0x48, 0xa0, 0x3b,
        0xbf, 0xd2, 0x5e, 0x8c, 0xd0, 0x36, 0x41, 0x41,
    ]
}

/// The order of the secp256k1 group.
pub open spec fn q_val() -> nat {
    be_val(q_bytes())
}

/// The 65-byte uncompressed encoding of the secp256k1 base point.
pub open spec fn generator_bytes() -> Seq<u8> {
    seq![
        0x04u8,
        0x79, 0xbe, 0x66, 0x7e, 0xf9, 0xdc, 0xbb, 0xac,
        0x55, 0xa0, 0x62, 0x95, 0xce, 0x87, 0x0b, 0x07,
        0x02, 0x9b, 0xfc, 0xdb, 0x2d, 0xce, 0x28, 0xd9,
        0x59, 0xf2, 0x81, 0x5b, 0x16, 0xf8, 0x17, 0x98,
        0x48, 0x3a, 0xda, 0x77, 0x26, 0xa3, 0xc4, 0x65,
        0x5d, 0xa4, 0xfb, 0xfc, 0x0e, 0x11, 0x08, 0xa8,
        0xfd, 0x17, 0xb4, 0x48, 0xa6, 0x85, 0x54, 0x19,
        0x9c, 0x47, 0xd0, 0x8f, 0xfb, 0x10, 0xd4, 0xb8,
    ]
}

/// The 65-byte uncompressed encoding of the second reference point, with
/// nothing up the sleeve: its x coordinate is the SHA-256 digest of the base
/// point's uncompressed encoding, read as a field element, and its y
/// coordinate is the even square root of the curve equation at that x. Its
/// discrete-log relation to the base point is therefore unknown. The test
/// suite re-derives the point from the base point and validates it against
/// the curve backend.
pub open spec fn second_generator_bytes() -> Seq<u8> {
    seq![
        0x04u8,
        0x50, 0x92, 0x9b, 0x74, 0xc1, 0xa0, 0x49, 0x54,
        0xb7, 0x8b, 0x4b, 0x60, 0x35, 0xe9, 0x7a, 0x5e,
        0x07, 0x8a, 0x5a, 0x0f, 0x28, 0xec, 0x96, 0xd5,
        0x47, 0xbf, 0xee, 0x9a, 0xce, 0x80, 0x3a, 0xc0,
        0x31, 0xd3, 0xc6, 0x86, 0x39, 0x73, 0x92, 0x6e,
        0x04, 0x9e, 0x63, 0x7c, 0xb1, 0xb5, 0xf4, 0x0a,
        0x36, 0xda, 0xc2, 0x8a, 0xf1, 0x76, 0x69, 0x68,
        0xc3, 0x0c, 0x23, 0x13, 0xf3, 0xa3, 0x89, 0x04,
    ]
}

/// The two reference points have different encodings.
pub proof fn lemma_reference_points_distinct()
    ensures
        second_generator_bytes() != generator_bytes(),
{
    assert(second_generator_bytes()[1] == 0x50);
    assert(generator_bytes()[1] == 0x79);
}

pub proof fn lemma_q_positive()
    ensures
        q_val() > 0,
{
    lemma_be_val_lower(q_bytes());
    lemma_pow256_pos(31);
    assert(q_bytes()[0] == 0xff);
    assert(0xff * pow256(31) >= 1) by (nonlinear_arith)
        requires
            pow256(31) >= 1,
    ;
}

/// A point on secp256k1, held as its 65-byte uncompressed public-key
/// encoding; values are built only from encodings the backend has validated.
#[derive(Debug, PartialEq, Eq)]
pub struct Secp256k1Point {
    bytes: Vec<u8>,
}

impl View for Secp256k1Point {
    type V = Seq<u8>;

    closed spec fn view(&self) -> Seq<u8> {
        self.bytes@
    }
}

impl Secp256k1Point {
    fn generator_vec() -> (r: Vec<u8>)
        ensures
            r@ == generator_bytes(),
    {
        let r: Vec<u8> = vec![
            0x04u8,
            0x79, 0xbe, 0x66, 0x7e, 0xf9, 0xdc, 0xbb, 0xac,
            0x55, 0xa0, 0x62, 0x95, 0xce, 0x87, 0x0b, 0x07,
            0x02, 0x9b, 0xfc, 0xdb, 0x2d, 0xce, 0x28, 0xd9,
            0x59, 0xf2, 0x81, 0x5b, 0x16, 0xf8, 0x17, 0x98,
            0x48, 0x3a, 0xda, 0x77, 0x26, 0xa3, 0xc4, 0x65,
            0x5d, 0xa4, 0xfb, 0xfc, 0x0e, 0x11, 0x08, 0xa8,
            0xfd, 0x17, 0xb4, 0x48, 0xa6, 0x85, 0x54, 0x19,
            0x9c, 0x47, 0xd0, 0x8f, 0xfb, 0x10, 0xd4, 0xb8,
        ];
        proof {
            assert(r@ =~= generator_bytes());
        }
        r
    }
}

impl ECPoint for Secp256k1Point {
    type Scalar = Secp256k1Scalar;

    open spec fn encoded(&self) -> Seq<u8> {
        self@
    }

    open spec fn generator_encoding() -> Seq<u8> {
        generator_bytes()
    }

    open spec fn second_generator_encoding() -> Seq<u8> {
        second_generator_bytes()
    }

    fn to_encoded_bytes(&self) -> (r: Vec<u8>) {
        let n = self.bytes.len();
        let mut out: Vec<u8> = Vec::new();
        let mut j: usize = 0;
        while j < n
            invariant
                j <= n,
                n == self@.len(),
                out@ =~= self@.subrange(0, j as int),
            decreases n - j,
        {
            let b = self.bytes[j];
            out.push(b);
            proof {
                assert(out@ =~= self@.subrange(0, j as int + 1));
            }
            j += 1;
        }
        proof {
            assert(out@ =~= self@);
        }
        out
    }

    fn generator() -> (r: Self) {
        Secp256k1Point { bytes: Self::generator_vec() }
    }

    fn second_generator() -> (r: Self) {
        let bytes: Vec<u8> = vec![
            0x04u8,
            0x50, 0x92, 0x9b, 0x74, 0xc1, 0xa0, 0x49, 0x54,
            0xb7, 0x8b, 0x4b, 0x60, 0x35, 0xe9, 0x7a, 0x5e,
            0x07, 0x8a, 0x5a, 0x0f, 0x28, 0xec, 0x96, 0xd5,
            0x47, 0xbf, 0xee, 0x9a, 0xce, 0x80, 0x3a, 0xc0,
            0x31, 0xd3, 0xc6, 0x86, 0x39, 0x73, 0x92, 0x6e,
            0x04, 0x9e, 0x63, 0x7c, 0xb1, 0xb5, 0xf4, 0x0a,
            0x36, 0xda, 0xc2, 0x8a, 0xf1, 0x76, 0x69, 0x68,
            0xc3, 0x0c, 0x23, 0x13, 0xf3, 0xa3, 0x89, 0x04,
        ];
        proof {
            assert(bytes@ =~= second_generator_bytes());
        }
        Secp256k1Point { bytes }
    }
}

/// A scalar of secp256k1's scalar field: an integer reduced modulo the group
/// order.
#[derive(Debug, PartialEq, Eq)]
pub struct Secp256k1Scalar {
    n: Integer,
}

impl View for Secp256k1Scalar {
    type V = Seq<u8>;

    closed spec fn view(&self) -> Seq<u8> {
        self.n@
    }
}

impl Secp256k1Scalar {
    /// The group order as an integer.
    pub fn q() -> (r: Integer)
        ensures
            r.wf(),
            r.value() == q_val(),
    {
        let q: Vec<u8> = vec![
            0xffu8, 0xff, 0xff, 0xff, 0xff, 0xff, 0xff, 0xff,
            0xff, 0xff, 0xff, 0xff, 0xff, 0xff, 0xff, 0xfe,
            0xba, 0xae, 0xdc, 0xe6, 0xaf, 0x48, 0xa0, 0x3b,
            0xbf, 0xd2, 0x5e, 0x8c, 0xd0, 0x36, 0x41, 0x41,
        ];
        proof {
            assert(q@ =~= q_bytes());
        }
        Integer::from_bytes(&q)
    }
}

impl ECScalar for Secp256k1Scalar {
    open spec fn s_val(&self) -> nat {
        be_val(self@)
    }

    closed spec fn s_wf(&self) -> bool {
        self.n.wf() && be_val(self@) < q_val()
    }

    open spec fn order() -> nat {
        q_val()
    }

    fn from_integer(n: &Integer) -> (r: Self) {
        let q = Secp256k1Scalar::q();
        proof {
            lemma_q_positive();
        }
        let reduced = n.modulo(&q);
        Secp256k1Scalar { n: reduced }
    }

    fn to_big_int(&self) -> (r: Integer) {
        self.n.duplicate()
    }
}

/// Determinism of `hash_to_scalar` on this backend: the contract fixes the
/// scalar's value as a function of the input sequence alone, and the value
/// fixes the canonical representation, so repeated calls on one ordered
/// input sequence return identical scalars.
pub proof fn lemma_hash_to_scalar_deterministic(
    points: Seq<&Secp256k1Point>,
    r1: Secp256k1Scalar,
    r2: Secp256k1Scalar,
)
    requires
        r1.s_wf(),
        r2.s_wf(),
        r1.s_val() == hash_to_scalar_value::<Secp256k1Point>(points),
        r2.s_val() == hash_to_scalar_value::<Secp256k1Point>(points),
    ensures
        r1@ == r2@,
{
    lemma_canonical_unique(r1@, r2@);
}

} // verus!
