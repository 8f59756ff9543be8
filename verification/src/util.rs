//! Small verified helpers over raw bytes: slice equality and decimal
//! parsing, shared by the identifier lookups and the filter DSL.

use vstd::prelude::*;
use vstd::slice::slice_index_get;
use vstd::string::{StringSliceAdditionalSpecFns, StringExecFns};

verus! {

/// Equality of two strings, decided byte for byte: UTF-8 encoding is
/// injective, so byte equality and character equality coincide.
pub fn str_eq(a: &str, b: &str) -> (r: bool)
    ensures
        r == (a@ == b@),
{
    let r = bytes_eq(a.as_bytes(), b.as_bytes());
    proof {
        if a.spec_bytes() == b.spec_bytes() {
            vstd::utf8::encode_utf8_decode_utf8(a@);
            vstd::utf8::encode_utf8_decode_utf8(b@);
        }
    }
    r
}

/// The standard "X 'id' not found" error message.
pub fn not_found_message(what: &str, id: &str) -> (r: String)
    ensures
        r@ == what@ + " '"@ + id@ + "' not found"@,
{
    let mut m = what.to_owned();
    m.append(" '");
    m.append(id);
    m.append("' not found");
    m
}

/// Byte-for-byte equality of two slices.
pub fn bytes_eq(a: &[u8], b: &[u8]) -> (r: bool)
    ensures
        r == (a@ == b@),
{
    let n = a.len();
    if n != b.len() {
        proof {
            assert(a@.len() != b@.len());
        }
        return false;
    }
    let mut i: usize = 0;
    while i < n
        invariant
            0 <= i <= n,
            n == a@.len() == b@.len(),
            forall|k: int| 0 <= k < i ==> a@[k] == b@[k],
        decreases n - i,
    {
        if *slice_index_get(a, i) != *slice_index_get(b, i) {
            proof {
                assert(a@[i as int] != b@[i as int]);
            }
            return false;
        }
        i = i + 1;
    }
    proof {
        assert(a@ =~= b@);
    }
    true
}

/// The number denoted by a sequence of ASCII decimal digits, read most
/// significant first, as unbounded arithmetic.
pub open spec fn spec_decimal_value(s: Seq<u8>) -> int
    decreases s.len(),
{
    if s.len() == 0 {
        0
    } else {
        spec_decimal_value(s.drop_last()) * 10 + (s.last() - 48)
    }
}

/// The bytes are a well-formed decimal numeral: non-empty, ASCII digits
/// only, and its value fits in a `u64`.
pub open spec fn spec_is_decimal_u64(s: Seq<u8>) -> bool {
    &&& s.len() > 0
    &&& forall|k: int| 0 <= k < s.len() ==> 48 <= #[trigger] s[k] <= 57
    &&& spec_decimal_value(s) <= u64::MAX
}

/// Parse an unsigned decimal numeral. Returns `Some` exactly on well-formed
/// numerals whose value fits in a `u64`, and then the denoted value.
pub fn parse_u64(s: &[u8]) -> (r: Option<u64>)
    ensures
        r is Some <==> spec_is_decimal_u64(s@),
        r matches Some(v) ==> v == spec_decimal_value(s@),
{
    let n = s.len();
    if n == 0 {
        return None;
    }
    let mut acc: u64 = 0;
    let mut i: usize = 0;
    while i < n
        invariant
            0 <= i <= n,
            n == s@.len(),
            forall|k: int| 0 <= k < i ==> 48 <= #[trigger] s@[k] <= 57,
            acc == spec_decimal_value(s@.subrange(0, i as int)),
        decreases n - i,
    {
        let c = *slice_index_get(s, i);
        if c < 48 || c > 57 {
            proof {
                assert(!(48 <= s@[i as int] <= 57));
            }
            return None;
        }
        let d = (c - 48) as u64;
        if acc > (u64::MAX - d) / 10 {
            proof {
                assert(spec_decimal_value(s@.subrange(0, i + 1)) == acc * 10 + d) by {
                    assert(s@.subrange(0, i + 1).drop_last() =~= s@.subrange(0, i as int));
                    assert(s@.subrange(0, i + 1).last() == s@[i as int]);
                }
                assert(spec_decimal_value(s@.subrange(0, i + 1)) > u64::MAX) by (nonlinear_arith)
                    requires
                        spec_decimal_value(s@.subrange(0, i + 1)) == acc * 10 + d,
                        acc > (u64::MAX - d) / 10,
                        0 <= d <= 9,
                {}
                if forall|k: int| 0 <= k < s@.len() ==> 48 <= #[trigger] s@[k] <= 57 {
                    lemma_decimal_prefix_monotonic(s@, i + 1);
                }
            }
            return None;
        }
        proof {
            assert(acc * 10 + d <= u64::MAX) by (nonlinear_arith)
                requires
                    acc <= (u64::MAX - d) / 10,
                    0 <= d <= 9,
            {}
            assert(s@.subrange(0, i + 1).drop_last() =~= s@.subrange(0, i as int));
            assert(s@.subrange(0, i + 1).last() == s@[i as int]);
        }
        acc = acc * 10 + d;
        i = i + 1;
    }
    proof {
        assert(s@.subrange(0, n as int) =~= s@);
    }
    Some(acc)
}

/// A longer digit prefix denotes at least as large a value: appending a
/// digit multiplies by ten and adds a non-negative amount.
proof fn lemma_decimal_prefix_monotonic(s: Seq<u8>, m: int)
    requires
        0 <= m <= s.len(),
        forall|k: int| 0 <= k < s.len() ==> 48 <= #[trigger] s[k] <= 57,
    ensures
        spec_decimal_value(s.subrange(0, m)) <= spec_decimal_value(s),
    decreases s.len() - m,
{
    if m == s.len() {
        assert(s.subrange(0, m) =~= s);
    } else {
        lemma_decimal_prefix_monotonic(s, m + 1);
        let p = s.subrange(0, m + 1);
        assert(p.drop_last() =~= s.subrange(0, m));
        assert(48 <= p.last() <= 57);
        assert(forall|k: int| 0 <= k < s.subrange(0, m).len() ==> 48 <= #[trigger] s.subrange(
            0,
            m,
        )[k] <= 57);
        lemma_decimal_nonneg(s.subrange(0, m));
        assert(spec_decimal_value(s.subrange(0, m)) <= spec_decimal_value(p)) by (nonlinear_arith)
            requires
                spec_decimal_value(p) == spec_decimal_value(s.subrange(0, m)) * 10 + (p.last()
                    - 48),
                48 <= p.last() <= 57,
                spec_decimal_value(s.subrange(0, m)) >= 0,
        {}
    }
}

/// A digit string's value is never negative.
proof fn lemma_decimal_nonneg(s: Seq<u8>)
    requires
        forall|k: int| 0 <= k < s.len() ==> 48 <= #[trigger] s[k] <= 57,
    ensures
        spec_decimal_value(s) >= 0,
    decreases s.len(),
{
    if s.len() > 0 {
        assert(forall|k: int| 0 <= k < s.drop_last().len() ==> 48 <= #[trigger] s.drop_last()[k]
            <= 57);
        lemma_decimal_nonneg(s.drop_last());
        assert(spec_decimal_value(s) >= 0) by (nonlinear_arith)
            requires
                spec_decimal_value(s) == spec_decimal_value(s.drop_last()) * 10 + (s.last() - 48),
                spec_decimal_value(s.drop_last()) >= 0,
                48 <= s.last() <= 57,
        {}
    }
}

} // verus!
