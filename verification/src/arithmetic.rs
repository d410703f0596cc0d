use vstd::prelude::*;

verus! {

/// The number denoted by a big-endian byte string.
pub open spec fn be_val(s: Seq<u8>) -> nat
    decreases s.len(),
{
    if s.len() == 0 {
        0
    } else {
        be_val(s.drop_last()) * 256 + s.last() as nat
    }
}

/// A big-endian byte string is canonical when it carries no leading zero byte;
/// zero is the empty string.
pub open spec fn canonical(s: Seq<u8>) -> bool {
    s.len() == 0 || s[0] != 0
}

/// 256 raised to the power `n`.
pub open spec fn pow256(n: nat) -> nat
    decreases n,
{
    if n == 0 {
        1
    } else {
        256 * pow256((n - 1) as nat)
    }
}

pub proof fn lemma_pow256_pos(n: nat)
    ensures
        pow256(n) >= 1,
    decreases n,
{
    if n > 0 {
        lemma_pow256_pos((n - 1) as nat);
    }
}

pub proof fn lemma_pow256_mono(m: nat, n: nat)
    requires
        m <= n,
    ensures
        pow256(m) <= pow256(n),
    decreases n,
{
    if m < n {
        lemma_pow256_mono(m, (n - 1) as nat);
    }
}

/// Dropping a leading zero byte does not change the denoted number.
pub proof fn lemma_be_val_leading_zero(s: Seq<u8>)
    requires
        s.len() > 0,
        s[0] == 0,
    ensures
        be_val(s) == be_val(s.drop_first()),
    decreases s.len(),
{
    if s.len() == 1 {
        assert(s.drop_last() =~= Seq::<u8>::empty());
        assert(s.drop_first() =~= Seq::<u8>::empty());
    } else {
        let dl = s.drop_last();
        lemma_be_val_leading_zero(dl);
        assert(dl.drop_first() =~= s.drop_first().drop_last());
        assert(s.drop_first().last() == s.last());
    }
}

/// A byte string of length `n` denotes a number below `pow256(n)`.
pub proof fn lemma_be_val_upper(s: Seq<u8>)
    ensures
        be_val(s) < pow256(s.len()),
    decreases s.len(),
{
    if s.len() > 0 {
        lemma_be_val_upper(s.drop_last());
        assert(s.last() < 256);
    }
}

/// A nonempty byte string denotes at least its first byte times the weight of
/// its position.
pub proof fn lemma_be_val_lower(s: Seq<u8>)
    requires
        s.len() > 0,
    ensures
        be_val(s) >= s[0] * pow256((s.len() - 1) as nat),
    decreases s.len(),
{
    if s.len() == 1 {
        assert(s.drop_last() =~= Seq::<u8>::empty());
        assert(be_val(Seq::<u8>::empty()) == 0);
        assert(s.last() == s[0]);
        assert(pow256((s.len() - 1) as nat) == 1);
        assert(be_val(s) == s[0]);
        assert(be_val(s) >= s[0] * pow256((s.len() - 1) as nat)) by (nonlinear_arith)
            requires
                be_val(s) == s[0],
                pow256((s.len() - 1) as nat) == 1,
        ;
    } else {
        let dl = s.drop_last();
        lemma_be_val_lower(dl);
        assert(dl[0] == s[0]);
        assert(dl.len() == s.len() - 1);
        assert(be_val(dl) * 256 >= (s[0] * pow256((s.len() - 2) as nat)) * 256) by (nonlinear_arith)
            requires
                be_val(dl) >= s[0] * pow256((s.len() - 2) as nat),
        ;
        assert((s[0] * pow256((s.len() - 2) as nat)) * 256 == s[0] * pow256((s.len() - 1) as nat))
            by (nonlinear_arith)
            requires
                pow256((s.len() - 1) as nat) == 256 * pow256((s.len() - 2) as nat),
                s.len() >= 2,
        ;
        assert(be_val(s) == be_val(dl) * 256 + s.last() as nat);
        assert(be_val(s) >= s[0] * pow256((s.len() - 1) as nat));
    }
}

/// Two canonical byte strings denoting the same number are equal.
pub proof fn lemma_canonical_unique(a: Seq<u8>, b: Seq<u8>)
    requires
        canonical(a),
        canonical(b),
        be_val(a) == be_val(b),
    ensures
        a == b,
    decreases a.len(),
{
    if a.len() == 0 || b.len() == 0 {
        if a.len() == 0 && b.len() > 0 {
            lemma_be_val_lower(b);
            lemma_pow256_pos((b.len() - 1) as nat);
            assert(b[0] * pow256((b.len() - 1) as nat) >= 1) by (nonlinear_arith)
                requires
                    b[0] >= 1,
                    pow256((b.len() - 1) as nat) >= 1,
            ;
        } else if b.len() == 0 && a.len() > 0 {
            lemma_be_val_lower(a);
            lemma_pow256_pos((a.len() - 1) as nat);
            assert(a[0] * pow256((a.len() - 1) as nat) >= 1) by (nonlinear_arith)
                requires
                    a[0] >= 1,
                    pow256((a.len() - 1) as nat) >= 1,
            ;
        } else {
            assert(a =~= b);
        }
    } else if a.len() < b.len() {
        lemma_be_val_upper(a);
        lemma_be_val_lower(b);
        lemma_pow256_mono(a.len(), (b.len() - 1) as nat);
        assert(b[0] * pow256((b.len() - 1) as nat) >= pow256((b.len() - 1) as nat))
            by (nonlinear_arith)
            requires
                b[0] >= 1,
        ;
    } else if b.len() < a.len() {
        lemma_be_val_upper(b);
        lemma_be_val_lower(a);
        lemma_pow256_mono(b.len(), (a.len() - 1) as nat);
        assert(a[0] * pow256((a.len() - 1) as nat) >= pow256((a.len() - 1) as nat))
            by (nonlinear_arith)
            requires
                a[0] >= 1,
        ;
    } else {
        let ad = a.drop_last();
        let bd = b.drop_last();
        assert(be_val(a) == be_val(ad) * 256 + a.last());
        assert(be_val(b) == be_val(bd) * 256 + b.last());
        assert(a.last() == be_val(a) % 256 && be_val(ad) == be_val(a) / 256) by (nonlinear_arith)
            requires
                be_val(a) == be_val(ad) * 256 + a.last(),
                a.last() < 256,
        ;
        assert(b.last() == be_val(b) % 256 && be_val(bd) == be_val(b) / 256) by (nonlinear_arith)
            requires
                be_val(b) == be_val(bd) * 256 + b.last(),
                b.last() < 256,
        ;
        if a.len() == 1 {
            assert(a =~= b);
        } else {
            lemma_canonical_unique(ad, bd);
            assert(a =~= ad.push(a.last()));
            assert(b =~= bd.push(b.last()));
        }
    }
}

/// If two equal-length byte strings agree up to position `i` and differ there,
/// the one with the smaller byte denotes the smaller number.
pub proof fn lemma_be_val_first_diff(a: Seq<u8>, b: Seq<u8>, i: int)
    requires
        a.len() == b.len(),
        0 <= i < a.len(),
        forall|j: int| 0 <= j < i ==> a[j] == b[j],
        a[i] < b[i],
    ensures
        be_val(a) < be_val(b),
    decreases a.len(),
{
    let ad = a.drop_last();
    let bd = b.drop_last();
    if i == a.len() - 1 {
        assert(ad =~= bd);
    } else {
        lemma_be_val_first_diff(ad, bd, i);
    }
}

/// The digit characters used by the radix strings, lowest value first.
pub open spec fn digit_char(d: nat) -> char {
    seq!['0', '1', '2', '3', '4', '5', '6', '7', '8', '9', 'a', 'b', 'c', 'd', 'e', 'f'][d as int]
}

/// The digits of `n` written in base `radix`, most significant first, with no
/// leading zeros; zero itself is the single digit `0`.
pub open spec fn radix_digits(radix: nat, n: nat) -> Seq<char>
    decreases n via radix_digits_dec
{
    if radix < 2 {
        Seq::empty()
    } else if n < radix {
        seq![digit_char(n)]
    } else {
        radix_digits(radix, n / radix) + seq![digit_char(n % radix)]
    }
}

#[via_fn]
proof fn radix_digits_dec(radix: nat, n: nat) {
    if radix >= 2 && n >= radix {
        assert(n / radix < n) by (nonlinear_arith)
            requires
                radix >= 2,
                n >= radix,
        ;
    }
}

/// An arbitrary-precision unsigned integer, held as its canonical big-endian
/// byte encoding: no leading zero byte, and zero is the empty encoding.
#[derive(Debug, PartialEq, Eq)]
pub struct Integer {
    bytes: Vec<u8>,
}

impl View for Integer {
    type V = Seq<u8>;

    closed spec fn view(&self) -> Seq<u8> {
        self.bytes@
    }
}

/// Remainder of one big-endian number by another, in big-endian bytes.
/// Relies on num-bigint's `BigUint`: `from_bytes_be` reads a big-endian byte
/// string, `%` is the remainder of the division, and `to_bytes_be` writes the
/// result back out in big-endian order.
#[verifier::external_body]
fn rem_bytes_be(n: &Vec<u8>, m: &Vec<u8>) -> (r: Vec<u8>)
    requires
        be_val(m@) > 0,
    ensures
        be_val(r@) == be_val(n@) % be_val(m@),
{
    let a = num_bigint::BigUint::from_bytes_be(n.as_slice());
    let b = num_bigint::BigUint::from_bytes_be(m.as_slice());
    (&a % &b).to_bytes_be()
}

/// A big-endian number written out in the given base.
/// Relies on num-bigint's `BigUint::to_str_radix`, which returns the integer
/// formatted in the given radix, lowercase digits, no leading zeros.
#[verifier::external_body]
fn radix_string_be(n: &Vec<u8>, radix: u32) -> (r: String)
    requires
        2 <= radix <= 16,
    ensures
        r@ == radix_digits(radix as nat, be_val(n@)),
{
    num_bigint::BigUint::from_bytes_be(n.as_slice()).to_str_radix(radix)
}

impl Integer {
    /// The representation is canonical.
    pub open spec fn wf(&self) -> bool {
        canonical(self@)
    }

    /// The number this integer denotes.
    pub open spec fn value(&self) -> nat {
        be_val(self@)
    }

    pub fn zero() -> (r: Integer)
        ensures
            r.wf(),
            r.value() == 0,
    {
        Integer { bytes: Vec::new() }
    }

    pub fn one() -> (r: Integer)
        ensures
            r.wf(),
            r.value() == 1,
    {
        let mut bytes: Vec<u8> = Vec::new();
        bytes.push(1u8);
        proof {
            assert(bytes@.len() == 1 && bytes@.last() == 1u8);
            assert(bytes@.drop_last() =~= Seq::<u8>::empty());
            assert(be_val(Seq::<u8>::empty()) == 0);
        }
        Integer { bytes }
    }

    /// Reads a big-endian byte string, discarding any leading zero bytes.
    pub fn from_bytes(bytes: &Vec<u8>) -> (r: Integer)
        ensures
            r.wf(),
            r.value() == be_val(bytes@),
    {
        let n = bytes.len();
        proof {
            assert(bytes@.subrange(0, n as int) =~= bytes@);
        }
        let mut i: usize = 0;
        while i < n && bytes[i] == 0u8
            invariant
                i <= n,
                n == bytes@.len(),
                be_val(bytes@.subrange(i as int, n as int)) == be_val(bytes@),
            decreases n - i,
        {
            proof {
                let s = bytes@.subrange(i as int, n as int);
                lemma_be_val_leading_zero(s);
                assert(s.drop_first() =~= bytes@.subrange(i as int + 1, n as int));
            }
            i += 1;
        }
        let mut out: Vec<u8> = Vec::new();
        let mut j: usize = i;
        while j < n
            invariant
                i <= j <= n,
                n == bytes@.len(),
                out@ =~= bytes@.subrange(i as int, j as int),
            decreases n - j,
        {
            let b = bytes[j];
            out.push(b);
            proof {
                assert(out@ =~= bytes@.subrange(i as int, j as int + 1));
            }
            j += 1;
        }
        proof {
            assert(out@ =~= bytes@.subrange(i as int, n as int));
        }
        Integer { bytes: out }
    }

    /// The canonical big-endian byte encoding.
    pub fn to_bytes(&self) -> (r: Vec<u8>)
        ensures
            r@ == self@,
    {
        let n = self.bytes.len();
        let mut out: Vec<u8> = Vec::new();
        let mut j: usize = 0;
        while j < n
            invariant
                j <= n,
                n == self@.len(),
                out@ =~= self@.subrange(0, j as int),
            decreases n - j,
        {
            let b = self.bytes[j];
            out.push(b);
            proof {
                assert(out@ =~= self@.subrange(0, j as int + 1));
            }
            j += 1;
        }
        proof {
            assert(out@ =~= self@);
        }
        out
    }

    /// A copy of this integer.
    pub fn duplicate(&self) -> (r: Integer)
        ensures
            r@ == self@,
    {
        Integer { bytes: self.to_bytes() }
    }

    /// Strict comparison of the denoted numbers.
    pub fn gt(&self, other: &Integer) -> (r: bool)
        requires
            self.wf(),
            other.wf(),
        ensures
            r == (self.value() > other.value()),
    {
        let n = self.bytes.len();
        let m = other.bytes.len();
        if n > m {
            proof {
                lemma_be_val_lower(self@);
                lemma_be_val_upper(other@);
                lemma_pow256_mono(m as nat, (n - 1) as nat);
                assert(self@[0] * pow256((n - 1) as nat) >= pow256((n - 1) as nat))
                    by (nonlinear_arith)
                    requires
                        self@[0] >= 1,
                ;
            }
            true
        } else if n < m {
            proof {
                lemma_be_val_lower(other@);
                lemma_be_val_upper(self@);
                lemma_pow256_mono(n as nat, (m - 1) as nat);
                assert(other@[0] * pow256((m - 1) as nat) >= pow256((m - 1) as nat))
                    by (nonlinear_arith)
                    requires
                        other@[0] >= 1,
                ;
            }
            false
        } else {
            let mut k: usize = 0;
            while k < n && self.bytes[k] == other.bytes[k]
                invariant
                    k <= n,
                    n == self@.len(),
                    n == other@.len(),
                    forall|j: int| 0 <= j < k ==> self@[j] == other@[j],
                decreases n - k,
            {
                k += 1;
            }
            if k == n {
                proof {
                    assert(self@ =~= other@);
                }
                false
            } else if self.bytes[k] > other.bytes[k] {
                proof {
                    lemma_be_val_first_diff(other@, self@, k as int);
                }
                true
            } else {
                proof {
                    lemma_be_val_first_diff(self@, other@, k as int);
                }
                false
            }
        }
    }

    /// The remainder of this integer divided by `m`.
    pub fn modulo(&self, m: &Integer) -> (r: Integer)
        requires
            m.value() > 0,
        ensures
            r.wf(),
            r.value() == self.value() % m.value(),
    {
        let raw = rem_bytes_be(&self.bytes, &m.bytes);
        Integer::from_bytes(&raw)
    }

    /// The integer written in base `radix` (2 to 16), lowercase digits.
    pub fn to_str_radix(&self, radix: u32) -> (r: String)
        requires
            2 <= radix <= 16,
        ensures
            r@ == radix_digits(radix as nat, self.value()),
    {
        radix_string_be(&self.bytes, radix)
    }
}

} // verus!
