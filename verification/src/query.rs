//! The cross-stream query vocabulary and the small filter DSL applied to
//! live events: `"field op value"` with whitespace-separated tokens, e.g.
//! `node_id == 7` or `lamport > 100`. Malformed filters match everything.

use vstd::prelude::*;
use vstd::slice::slice_subrange;
use crate::event::CausalEvent;
use crate::util::{bytes_eq, parse_u64, spec_is_decimal_u64, spec_decimal_value};
use vstd::string::StringSliceAdditionalSpecFns;

verus! {

/// Comparison operators of the query language.
#[derive(Debug, Clone, Copy, PartialEq, Eq, Structural)]
pub enum CompareOp {
    Eq,
    Neq,
    Gt,
    Gte,
    Lt,
    Lte,
    Contains,
    StartsWith,
}

/// ASCII whitespace, as the filter tokenizer splits on it.
pub open spec fn spec_is_ws(b: u8) -> bool {
    b == 32 || (9 <= b <= 13)
}

/// The first position at or after `i` holding a non-whitespace byte, or the
/// length of the sequence.
pub open spec fn spec_skip_ws(s: Seq<u8>, i: int) -> int
    decreases s.len() - i,
{
    if i < 0 || i >= s.len() {
        i
    } else if spec_is_ws(s[i]) {
        spec_skip_ws(s, i + 1)
    } else {
        i
    }
}

/// The first position at or after `i` holding a whitespace byte, or the
/// length of the sequence.
pub open spec fn spec_token_end(s: Seq<u8>, i: int) -> int
    decreases s.len() - i,
{
    if i < 0 || i >= s.len() {
        i
    } else if spec_is_ws(s[i]) {
        i
    } else {
        spec_token_end(s, i + 1)
    }
}

/// The value of a field-comparison token triple against an event, following
/// the drop-through rules: an unknown field, an unknown operator, or an
/// unparsable value matches everything.
pub open spec fn spec_field_matches(
    field: Seq<u8>,
    op: Seq<u8>,
    val: Seq<u8>,
    e: CausalEvent,
) -> bool {
    if !spec_is_decimal_u64(val) {
        true
    } else {
        let v = spec_decimal_value(val);
        if field == "node_id".spec_bytes() {
            spec_compare_u64(e.node_id as int, op, v)
        } else if field == "stream_id".spec_bytes() {
            spec_compare_u64(e.stream_id as int, op, v)
        } else if field == "ts".spec_bytes() || field == "lamport".spec_bytes() {
            spec_compare_u64(e.lamport_ts as int, op, v)
        } else {
            true
        }
    }
}

/// One numeric comparison; an unknown operator matches everything.
pub open spec fn spec_compare_u64(x: int, op: Seq<u8>, v: int) -> bool {
    if op == "==".spec_bytes() {
        x == v
    } else if op == ">".spec_bytes() {
        x > v
    } else if op == "<".spec_bytes() {
        x < v
    } else {
        true
    }
}

/// The whole filter: the first three whitespace-separated tokens are field,
/// operator and value; a query with fewer than three tokens matches
/// everything.
pub open spec fn spec_evaluate_dsl(s: Seq<u8>, e: CausalEvent) -> bool {
    let a0 = spec_skip_ws(s, 0);
    let e0 = spec_token_end(s, a0);
    let a1 = spec_skip_ws(s, e0);
    let e1 = spec_token_end(s, a1);
    let a2 = spec_skip_ws(s, e1);
    let e2 = spec_token_end(s, a2);
    if a2 >= s.len() {
        true
    } else {
        spec_field_matches(s.subrange(a0, e0), s.subrange(a1, e1), s.subrange(a2, e2), e)
    }
}

fn is_ws(b: u8) -> (r: bool)
    ensures
        r == spec_is_ws(b),
{
    b == 32 || (9 <= b && b <= 13)
}

fn skip_ws(s: &[u8], i: usize) -> (r: usize)
    requires
        i <= s@.len(),
    ensures
        r == spec_skip_ws(s@, i as int),
        i <= r <= s@.len(),
{
    let n = s.len();
    let mut j = i;
    while j < n && is_ws(*vstd::slice::slice_index_get(s, j))
        invariant
            i <= j <= n,
            n == s@.len(),
            spec_skip_ws(s@, i as int) == spec_skip_ws(s@, j as int),
        decreases n - j,
    {
        j = j + 1;
    }
    j
}

fn token_end(s: &[u8], i: usize) -> (r: usize)
    requires
        i <= s@.len(),
    ensures
        r == spec_token_end(s@, i as int),
        i <= r <= s@.len(),
{
    let n = s.len();
    let mut j = i;
    while j < n && !is_ws(*vstd::slice::slice_index_get(s, j))
        invariant
            i <= j <= n,
            n == s@.len(),
            spec_token_end(s@, i as int) == spec_token_end(s@, j as int),
        decreases n - j,
    {
        j = j + 1;
    }
    j
}

fn compare_u64(x: u64, op: &[u8], v: u64) -> (r: bool)
    ensures
        r == spec_compare_u64(x as int, op@, v as int),
{
    if bytes_eq(op, "==".as_bytes()) {
        x == v
    } else if bytes_eq(op, ">".as_bytes()) {
        x > v
    } else if bytes_eq(op, "<".as_bytes()) {
        x < v
    } else {
        true
    }
}

/// Evaluate the filter DSL against one event: `"field op value"`, where the
/// field is `node_id`, `stream_id`, `ts` or `lamport`, the operator is `==`,
/// `>` or `<`, and the value is an unsigned decimal. Anything malformed
/// matches everything.
pub fn evaluate_dsl(query: &str, event: &CausalEvent) -> (r: bool)
    ensures
        r == spec_evaluate_dsl(query.spec_bytes(), *event),
{
    let s = query.as_bytes();
    let n = s.len();
    let a0 = skip_ws(s, 0);
    let e0 = token_end(s, a0);
    let a1 = skip_ws(s, e0);
    let e1 = token_end(s, a1);
    let a2 = skip_ws(s, e1);
    let e2 = token_end(s, a2);
    if a2 >= n {
        return true;
    }
    let field = slice_subrange(s, a0, e0);
    let op = slice_subrange(s, a1, e1);
    let val = slice_subrange(s, a2, e2);
    match parse_u64(val) {
        None => true,
        Some(v) => {
            if bytes_eq(field, "node_id".as_bytes()) {
                compare_u64(event.node_id as u64, op, v)
            } else if bytes_eq(field, "stream_id".as_bytes()) {
                compare_u64(event.stream_id as u64, op, v)
            } else if bytes_eq(field, "ts".as_bytes()) || bytes_eq(field, "lamport".as_bytes()) {
                compare_u64(event.lamport_ts, op, v)
            } else {
                true
            }
        },
    }
}

} // verus!
