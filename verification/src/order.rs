//! Lexicographic ordering of character sequences.
//!
//! Timestamps in this library are ISO-8601 strings; comparing them
//! lexicographically by code point orders them chronologically, which is
//! what both the batch-window ranges and the sort policy rely on.

use vstd::prelude::*;
use vstd::string::StrSliceExecFns;

verus! {

/// Outcome of a three-way comparison.
#[derive(Clone, Copy, Debug, PartialEq, Eq, Structural)]
pub enum Cmp {
    Lt,
    Eq,
    Gt,
}

/// Strict lexicographic order by code point, shorter prefixes first.
pub open spec fn lex_lt(a: Seq<char>, b: Seq<char>) -> bool
    decreases a.len(),
{
    if b.len() == 0 {
        false
    } else if a.len() == 0 {
        true
    } else if (a[0] as int) < (b[0] as int) {
        true
    } else if a[0] == b[0] {
        lex_lt(a.drop_first(), b.drop_first())
    } else {
        false
    }
}

pub open spec fn lex_le(a: Seq<char>, b: Seq<char>) -> bool {
    lex_lt(a, b) || a == b
}

fn lex_cmp_from(a: &str, b: &str, i: usize) -> (c: Cmp)
    requires
        i <= a@.len(),
        i <= b@.len(),
    ensures
        (c == Cmp::Lt) == lex_lt(a@.skip(i as int), b@.skip(i as int)),
        (c == Cmp::Eq) == (a@.skip(i as int) == b@.skip(i as int)),
        (c == Cmp::Gt) == lex_lt(b@.skip(i as int), a@.skip(i as int)),
    decreases a@.len() - i,
{
    let na = a.unicode_len();
    let nb = b.unicode_len();
    if i == nb {
        if i == na {
            proof {
                assert(a@.skip(i as int) =~= b@.skip(i as int));
            }
            Cmp::Eq
        } else {
            proof {
                assert(a@.skip(i as int).len() > 0);
                assert(b@.skip(i as int).len() == 0);
            }
            Cmp::Gt
        }
    } else if i == na {
        proof {
            assert(a@.skip(i as int).len() == 0);
            assert(b@.skip(i as int).len() > 0);
        }
        Cmp::Lt
    } else {
        let ca = a.get_char(i);
        let cb = b.get_char(i);
        proof {
            vstd::utf8::char_is_scalar(ca);
            vstd::utf8::char_is_scalar(cb);
        }
        if (ca as u32) < (cb as u32) {
            Cmp::Lt
        } else if (cb as u32) < (ca as u32) {
            Cmp::Gt
        } else {
            proof {
                assert(ca == cb);
                assert(a@.skip(i as int).drop_first() =~= a@.skip(i as int + 1));
                assert(b@.skip(i as int).drop_first() =~= b@.skip(i as int + 1));
            }
            let r = lex_cmp_from(a, b, i + 1);
            proof {
                if r == Cmp::Eq {
                    assert forall|m: int| 0 <= m < a@.skip(i as int).len() implies a@.skip(
                        i as int,
                    )[m] == b@.skip(i as int)[m] by {
                        if m >= 1 {
                            assert(a@.skip(i as int + 1)[m - 1] == b@.skip(i as int + 1)[m - 1]);
                        }
                    }
                    assert(a@.skip(i as int) =~= b@.skip(i as int));
                }
            }
            r
        }
    }
}

/// Three-way lexicographic comparison of two strings.
pub fn str_lex_cmp(a: &str, b: &str) -> (c: Cmp)
    ensures
        (c == Cmp::Lt) == lex_lt(a@, b@),
        (c == Cmp::Eq) == (a@ == b@),
        (c == Cmp::Gt) == lex_lt(b@, a@),
{
    let c = lex_cmp_from(a, b, 0);
    proof {
        assert(a@.skip(0) =~= a@);
        assert(b@.skip(0) =~= b@);
    }
    c
}

/// Equality of two strings, character by character.
pub fn str_eq(a: &str, b: &str) -> (r: bool)
    ensures
        r == (a@ == b@),
{
    match str_lex_cmp(a, b) {
        Cmp::Eq => true,
        _ => false,
    }
}

/// `a` is at or before `b` in lexicographic order.
pub fn str_lex_le(a: &str, b: &str) -> (r: bool)
    ensures
        r == lex_le(a@, b@),
{
    match str_lex_cmp(a, b) {
        Cmp::Gt => false,
        _ => true,
    }
}

/// Exactly one of `lex_lt(a, b)`, `a == b`, `lex_lt(b, a)` holds.
pub proof fn lemma_lex_trichotomy(a: Seq<char>, b: Seq<char>)
    ensures
        lex_lt(a, b) || a == b || lex_lt(b, a),
        lex_lt(a, b) ==> a != b && !lex_lt(b, a),
        a == b ==> !lex_lt(a, b) && !lex_lt(b, a),
    decreases a.len(),
{
    if a.len() == 0 || b.len() == 0 {
        if a.len() == 0 && b.len() == 0 {
            assert(a =~= b);
        }
    } else {
        lemma_lex_trichotomy(a.drop_first(), b.drop_first());
        if a[0] == b[0] && a.drop_first() == b.drop_first() {
            assert forall|m: int| 0 <= m < a.len() implies a[m] == b[m] by {
                if m >= 1 {
                    assert(a.drop_first()[m - 1] == b.drop_first()[m - 1]);
                }
            }
            assert(a =~= b);
        }
        if a == b {
            assert(a.drop_first() =~= b.drop_first());
        }
    }
}

/// Lexicographic order is transitive.
pub proof fn lemma_lex_lt_trans(a: Seq<char>, b: Seq<char>, c: Seq<char>)
    requires
        lex_lt(a, b),
        lex_lt(b, c),
    ensures
        lex_lt(a, c),
    decreases a.len(),
{
    if a.len() == 0 {
    } else {
        if a[0] == b[0] && b[0] == c[0] {
            lemma_lex_lt_trans(a.drop_first(), b.drop_first(), c.drop_first());
        }
    }
}

} // verus!
