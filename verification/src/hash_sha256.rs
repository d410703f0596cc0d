use vstd::prelude::*;
use crate::arithmetic::{Integer, be_val, lemma_be_val_upper, lemma_canonical_unique, pow256};
use crate::elliptic::{ECPoint, ECScalar};

verus! {

/// The SHA-256 digest of a byte string; a function of the input alone, the
/// same in every process and on every machine.
pub uninterp spec fn sha256_of(input: Seq<u8>) -> Seq<u8>;

/// Relies on cryptoxide's `hashing::sha256`, which computes the SHA-256
/// digest of the input and returns its 32 bytes.
#[verifier::external_body]
fn sha256_digest(input: &Vec<u8>) -> (r: Vec<u8>)
    ensures
        r@ == sha256_of(input@),
        r@.len() == 32,
{
    cryptoxide::hashing::sha256(input.as_slice()).to_vec()
}

/// The transcript of an ordered sequence of encodings: their concatenation,
/// with no separator, length prefix or domain tag between them.
pub open spec fn transcript(encs: Seq<Seq<u8>>) -> Seq<u8>
    decreases encs.len(),
{
    if encs.len() == 0 {
        Seq::empty()
    } else {
        transcript(encs.drop_last()) + encs.last()
    }
}

/// The canonical byte encodings of a sequence of integers.
pub open spec fn int_encodings(vs: Seq<&Integer>) -> Seq<Seq<u8>> {
    vs.map_values(|v: &Integer| v@)
}

/// The canonical byte encodings of a sequence of group elements.
pub open spec fn point_encodings<P: ECPoint>(ps: Seq<&P>) -> Seq<Seq<u8>> {
    ps.map_values(|p: &P| p.encoded())
}

/// The number `hash_to_integer` returns: the digest of the transcript, read
/// as a big-endian integer.
pub open spec fn hash_to_integer_value(vs: Seq<&Integer>) -> nat {
    be_val(sha256_of(transcript(int_encodings(vs))))
}

/// The number `hash_to_scalar` returns: the digest of the transcript, read as
/// a big-endian integer and reduced modulo the curve's group order.
pub open spec fn hash_to_scalar_value<P: ECPoint>(ps: Seq<&P>) -> nat {
    be_val(sha256_of(transcript(point_encodings(ps)))) % <P::Scalar as ECScalar>::order()
}

/// The SHA-256 transcript hasher: serializes an ordered sequence of values
/// into one buffer, hashes the buffer once, and maps the digest into the
/// requested output domain. It holds no state; both operations are pure
/// functions of their inputs.
pub struct HSha256;

impl HSha256 {
    /// Hashes an ordered sequence of integers into an integer below 2^256.
    /// Total: the empty sequence is allowed and yields the digest of the
    /// empty transcript. Each input contributes its canonical encoding, so
    /// zero, whose canonical encoding is empty, adds no bytes to the
    /// transcript.
    pub fn hash_to_integer(values: &Vec<&Integer>) -> (r: Integer)
        ensures
            r.wf(),
            r.value() == hash_to_integer_value(values@),
            r.value() < pow256(32),
    {
        let ghost encs = int_encodings(values@);
        let mut buffer: Vec<u8> = Vec::new();
        proof {
            assert(encs.subrange(0, 0) =~= Seq::<Seq<u8>>::empty());
        }
        let mut i: usize = 0;
        while i < values.len()
            invariant
                i <= values@.len(),
                encs == int_encodings(values@),
                encs.len() == values@.len(),
                buffer@ == transcript(encs.subrange(0, i as int)),
            decreases values@.len() - i,
        {
            let mut bytes = values[i].to_bytes();
            buffer.append(&mut bytes);
            proof {
                let pre = encs.subrange(0, i as int);
                let post = encs.subrange(0, i as int + 1);
                assert(post.drop_last() =~= pre);
                assert(post.last() == encs[i as int]);
            }
            i += 1;
        }
        proof {
            assert(encs.subrange(0, encs.len() as int) =~= encs);
        }
        let digest = sha256_digest(&buffer);
        proof {
            lemma_be_val_upper(digest@);
        }
        Integer::from_bytes(&digest)
    }

    /// Hashes an ordered sequence of group elements into a scalar of the
    /// curve's scalar field: the digest is read as an integer and reduced
    /// modulo the group order, so the result always lies within the field.
    pub fn hash_to_scalar<P: ECPoint>(points: &Vec<&P>) -> (r: P::Scalar)
        ensures
            r.s_wf(),
            r.s_val() == hash_to_scalar_value::<P>(points@),
            r.s_val() < <P::Scalar as ECScalar>::order(),
    {
        let ghost encs = point_encodings(points@);
        let mut buffer: Vec<u8> = Vec::new();
        proof {
            assert(encs.subrange(0, 0) =~= Seq::<Seq<u8>>::empty());
        }
        let mut i: usize = 0;
        while i < points.len()
            invariant
                i <= points@.len(),
                encs == point_encodings(points@),
                encs.len() == points@.len(),
                buffer@ == transcript(encs.subrange(0, i as int)),
            decreases points@.len() - i,
        {
            let mut bytes = points[i].to_encoded_bytes();
            buffer.append(&mut bytes);
            proof {
                let pre = encs.subrange(0, i as int);
                let post = encs.subrange(0, i as int + 1);
                assert(post.drop_last() =~= pre);
                assert(post.last() == encs[i as int]);
            }
            i += 1;
        }
        proof {
            assert(encs.subrange(0, encs.len() as int) =~= encs);
        }
        let digest = sha256_digest(&buffer);
        let n = Integer::from_bytes(&digest);
        P::Scalar::from_integer(&n)
    }
}

/// Determinism of `hash_to_integer`: its contract fixes the result's value as
/// a function of the input sequence alone, and this lemma adds that the value
/// fixes the canonical representation, so repeated calls on one ordered input
/// sequence return identical integers.
pub proof fn lemma_hash_to_integer_deterministic(values: Seq<&Integer>, r1: Integer, r2: Integer)
    requires
        r1.wf(),
        r2.wf(),
        r1.value() == hash_to_integer_value(values),
        r2.value() == hash_to_integer_value(values),
    ensures
        r1@ == r2@,
{
    lemma_canonical_unique(r1@, r2@);
}

/// Order sensitivity at the transcript level: swapping two distinct
/// equal-length encodings changes the transcript that is hashed.
pub proof fn lemma_transcript_order_sensitive(a: Seq<u8>, b: Seq<u8>)
    requires
        a.len() == b.len(),
        a != b,
    ensures
        transcript(seq![a, b]) != transcript(seq![b, a]),
{
    lemma_transcript_pair(a, b);
    lemma_transcript_pair(b, a);
    if transcript(seq![a, b]) == transcript(seq![b, a]) {
        assert forall|i: int| 0 <= i < a.len() implies a[i] == b[i] by {
            assert((a + b)[i] == a[i]);
            assert((b + a)[i] == b[i]);
        }
        assert(a =~= b);
    }
}

/// Order sensitivity for group elements: two points with distinct encodings
/// of one length are hashed over different transcripts depending on which
/// comes first.
pub proof fn lemma_point_transcript_order_sensitive<P: ECPoint>(a: &P, b: &P)
    requires
        a.encoded().len() == b.encoded().len(),
        a.encoded() != b.encoded(),
    ensures
        transcript(point_encodings(seq![a, b])) != transcript(point_encodings(seq![b, a])),
{
    assert(point_encodings(seq![a, b]) =~= seq![a.encoded(), b.encoded()]);
    assert(point_encodings(seq![b, a]) =~= seq![b.encoded(), a.encoded()]);
    lemma_transcript_order_sensitive(a.encoded(), b.encoded());
}

/// The transcript of a pair is the plain concatenation of its encodings.
pub proof fn lemma_transcript_pair(a: Seq<u8>, b: Seq<u8>)
    ensures
        transcript(seq![a, b]) == a + b,
{
    let pair = seq![a, b];
    assert(pair.drop_last() =~= seq![a]);
    assert(seq![a].drop_last() =~= Seq::<Seq<u8>>::empty());
    assert(transcript(Seq::<Seq<u8>>::empty()) =~= Seq::<u8>::empty());
    assert(transcript(seq![a]) =~= Seq::<u8>::empty() + a);
    assert(transcript(pair) =~= (Seq::<u8>::empty() + a) + b);
    assert((Seq::<u8>::empty() + a) + b =~= a + b);
}

} // verus!
