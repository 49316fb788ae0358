//! Model of the index's text analysis: whitespace tokenization, ASCII
//! lower-casing, word-delimiter splitting, and substring (n-gram) matching.
//!
//! Indexing runs text through a whitespace tokenizer, a lower-case filter,
//! a word-delimiter filter (originals preserved) and an n-gram filter of
//! lengths [`NGRAM_MIN`]`..=`[`NGRAM_MAX`]; search-time analysis omits the
//! n-grams.  A query token therefore hits a document token exactly when it
//! is a substring of it and its length lies in the n-gram range.

use vstd::prelude::*;
use vstd::string::StrSliceExecFns;

verus! {

/// Shortest substring the index analyzer emits.
pub const NGRAM_MIN: usize = 2;

/// Longest substring the index analyzer emits.
pub const NGRAM_MAX: usize = 20;

/// Relevance counting saturates here, so scores always fit comfortably
/// in the integers the hit post-processing works with.
pub const SCORE_CAP: u32 = 1000000;

/// The two analyzed fields a free-text query runs over.
#[derive(Clone, Copy, Debug, PartialEq, Eq, Structural)]
pub enum TextField {
    Skills,
    Summary,
}

/// Which characters a splitting pass treats as separators.
#[derive(Clone, Copy, Debug, PartialEq, Eq, Structural)]
pub enum SepClass {
    /// The whitespace tokenizer: blanks, tabs and line breaks separate.
    Whitespace,
    /// The word-delimiter filter: everything but ASCII letters and digits
    /// separates, so tokens fall apart into their alphanumeric runs.
    NonAlnum,
}

/// ASCII lower-casing of one character; all others pass unchanged.
pub open spec fn lower_char(c: char) -> char {
    if 65 <= c as u32 && c as u32 <= 90 {
        ((c as int + 32) as char)
    } else {
        c
    }
}

/// ASCII lower-casing of a character sequence.
pub open spec fn lower_seq(s: Seq<char>) -> Seq<char> {
    s.map_values(|c: char| lower_char(c))
}

pub open spec fn is_whitespace(c: char) -> bool {
    c == ' ' || c == '\t' || c == '\n' || c == '\r'
}

pub open spec fn is_alnum(c: char) -> bool {
    (97 <= c as u32 && c as u32 <= 122) || (65 <= c as u32 && c as u32 <= 90) || (48 <= c as u32
        && c as u32 <= 57)
}

pub open spec fn is_sep(k: SepClass, c: char) -> bool {
    match k {
        SepClass::Whitespace => is_whitespace(c),
        SepClass::NonAlnum => !is_alnum(c),
    }
}

/// Length of the separator-free run at the head of `s`.
pub open spec fn run_len(s: Seq<char>, k: SepClass) -> nat
    decreases s.len(),
{
    if s.len() == 0 || is_sep(k, s[0]) {
        0
    } else {
        1 + run_len(s.drop_first(), k)
    }
}

/// The maximal separator-free runs of `s`, in order: what the
/// corresponding analysis pass emits as tokens.
pub open spec fn split_tokens(s: Seq<char>, k: SepClass) -> Seq<Seq<char>>
    decreases s.len(),
{
    if s.len() == 0 {
        Seq::empty()
    } else if is_sep(k, s[0]) {
        split_tokens(s.drop_first(), k)
    } else {
        // The head run never outruns the sequence, so this bound is
        // only there to make termination evident.
        let rest = run_len(s.drop_first(), k) as int;
        let rl: int = if rest > s.len() - 1 {
            s.len() as int
        } else {
            1 + rest
        };
        seq![s.take(rl)] + split_tokens(s.skip(rl), k)
    }
}

/// The characters of a string, for verified character-level work.
pub fn chars_of(s: &str) -> (r: Vec<char>)
    ensures
        r@ == s@,
{
    let n = s.unicode_len();
    let mut r: Vec<char> = Vec::new();
    let mut i: usize = 0;
    while i < n
        invariant
            n == s@.len(),
            i <= n,
            r@ == s@.take(i as int),
        decreases n - i,
    {
        r.push(s.get_char(i));
        i = i + 1;
        proof {
            assert(r@ =~= s@.take(i as int));
        }
    }
    proof {
        assert(r@ =~= s@);
    }
    r
}

fn lower_char_exec(c: char) -> (r: char)
    ensures
        r == lower_char(c),
{
    let u = c as u32;
    if 65 <= u && u <= 90 {
        ((u + 32) as u8) as char
    } else {
        c
    }
}

/// ASCII lower-casing of a character vector.
pub fn lower_exec(v: &Vec<char>) -> (r: Vec<char>)
    ensures
        r@ == lower_seq(v@),
{
    let mut r: Vec<char> = Vec::new();
    let mut i: usize = 0;
    while i < v.len()
        invariant
            i <= v@.len(),
            r@ == lower_seq(v@.take(i as int)),
        decreases v@.len() - i,
    {
        r.push(lower_char_exec(v[i]));
        i = i + 1;
        proof {
            assert(r@ =~= lower_seq(v@.take(i as int)));
        }
    }
    proof {
        assert(v@.take(v@.len() as int) =~= v@);
    }
    r
}

fn is_sep_exec(k: SepClass, c: char) -> (b: bool)
    ensures
        b == is_sep(k, c),
{
    let u = c as u32;
    match k {
        SepClass::Whitespace => u == 32 || u == 9 || u == 10 || u == 13,
        SepClass::NonAlnum => !((97 <= u && u <= 122) || (65 <= u && u <= 90) || (48 <= u && u
            <= 57)),
    }
}

proof fn lemma_run_len_at(s: Seq<char>, k: SepClass, n: int)
    requires
        0 <= n <= s.len(),
        forall|m: int| 0 <= m < n ==> !is_sep(k, s[m]),
        n == s.len() || is_sep(k, s[n]),
    ensures
        run_len(s, k) == n,
    decreases n,
{
    if n == 0 {
    } else {
        lemma_run_len_at(s.drop_first(), k, n - 1);
    }
}

fn split_from(v: &Vec<char>, i: usize, k: SepClass) -> (r: Vec<Vec<char>>)
    requires
        i <= v@.len(),
    ensures
        r.deep_view() == split_tokens(v@.skip(i as int), k),
    decreases v@.len() - i,
{
    if i == v.len() {
        let r: Vec<Vec<char>> = Vec::new();
        proof {
            assert(r.deep_view() =~~= split_tokens(v@.skip(i as int), k));
        }
        r
    } else if is_sep_exec(k, v[i]) {
        let r = split_from(v, i + 1, k);
        proof {
            assert(v@.skip(i as int).drop_first() =~= v@.skip(i as int + 1));
        }
        r
    } else {
        let ghost tail = v@.skip(i as int);
        let mut j: usize = i + 1;
        while j < v.len() && !is_sep_exec(k, v[j])
            invariant
                i < j <= v@.len(),
                forall|m: int| i <= m < j ==> !is_sep(k, v@[m]),
            decreases v@.len() - j,
        {
            j = j + 1;
        }
        proof {
            assert(forall|m: int| 0 <= m < j - i ==> !is_sep(k, tail[m]));
            if j < v@.len() {
                assert(is_sep(k, tail[j - i]));
            }
            lemma_run_len_at(tail, k, j - i);
        }
        let mut tok: Vec<char> = Vec::new();
        let mut m: usize = i;
        while m < j
            invariant
                i <= m <= j <= v@.len(),
                tok@ == v@.subrange(i as int, m as int),
            decreases j - m,
        {
            tok.push(v[m]);
            m = m + 1;
            proof {
                assert(tok@ =~= v@.subrange(i as int, m as int));
            }
        }
        let mut rest = split_from(v, j, k);
        proof {
            assert(tok@ =~= tail.take(run_len(tail, k) as int));
            assert(v@.skip(j as int) =~= tail.skip(run_len(tail, k) as int));
        }
        let mut r: Vec<Vec<char>> = Vec::new();
        r.push(tok);
        r.append(&mut rest);
        proof {
            assert(r.deep_view() =~~= split_tokens(v@.skip(i as int), k));
        }
        r
    }
}

/// The tokens of one splitting pass over `v`.
pub fn split_exec(v: &Vec<char>, k: SepClass) -> (r: Vec<Vec<char>>)
    ensures
        r.deep_view() == split_tokens(v@, k),
{
    let r = split_from(v, 0, k);
    proof {
        assert(v@.skip(0) =~= v@);
    }
    r
}

/// `q` occurs contiguously inside `d`.
pub open spec fn is_substring(q: Seq<char>, d: Seq<char>) -> bool {
    exists|i: int| 0 <= i && i + q.len() <= d.len() && #[trigger] d.subrange(i, i + q.len()) == q
}

/// A search-time token hits an indexed token exactly when the index's
/// n-gram pass emitted it: it is a substring of the indexed token and
/// its length lies in the n-gram range.
pub open spec fn token_match(qt: Seq<char>, dt: Seq<char>) -> bool {
    NGRAM_MIN <= qt.len() <= NGRAM_MAX && is_substring(qt, dt)
}

pub fn is_substring_exec(q: &Vec<char>, d: &Vec<char>) -> (b: bool)
    ensures
        b == is_substring(q@, d@),
{
    if q.len() > d.len() {
        return false;
    }
    if q.len() == 0 {
        proof {
            assert(d@.subrange(0, 0 + q@.len() as int) =~= q@);
        }
        return true;
    }
    let mut i: usize = 0;
    while i <= d.len() - q.len()
        invariant
            0 < q@.len() <= d@.len(),
            i <= d@.len() - q@.len() + 1,
            forall|m: int| 0 <= m < i ==> #[trigger] d@.subrange(m, m + q@.len()) != q@,
        decreases d@.len() + 1 - q@.len() - i,
    {
        let mut j: usize = 0;
        let mut hit = true;
        while j < q.len()
            invariant
                q@.len() <= d@.len(),
                d@.len() <= usize::MAX,
                i + q@.len() <= d@.len(),
                j <= q@.len(),
                hit ==> forall|m: int| 0 <= m < j ==> d@[i + m] == q@[m],
                !hit ==> d@.subrange(i as int, i + q@.len()) != q@,
            decreases q@.len() - j,
        {
            if d[i + j] != q[j] {
                proof {
                    assert(d@.subrange(i as int, i + q@.len())[j as int] != q@[j as int]);
                }
                hit = false;
                j = q.len();
            } else {
                j = j + 1;
            }
        }
        if hit {
            proof {
                assert(d@.subrange(i as int, i + q@.len()) =~= q@);
            }
            return true;
        }
        i = i + 1;
    }
    proof {
        assert forall|m: int| 0 <= m && m + q@.len() <= d@.len() implies #[trigger] d@.subrange(
            m,
            m + q@.len(),
        ) != q@ by {
            assert(m < i);
        }
    }
    false
}

fn token_match_exec(qt: &Vec<char>, dt: &Vec<char>) -> (b: bool)
    ensures
        b == token_match(qt@, dt@),
{
    NGRAM_MIN <= qt.len() && qt.len() <= NGRAM_MAX && is_substring_exec(qt, dt)
}

/// Addition that saturates at [`SCORE_CAP`].
pub open spec fn sat_add(a: nat, b: nat) -> nat {
    if a + b > SCORE_CAP {
        SCORE_CAP as nat
    } else {
        a + b
    }
}

/// How many indexed tokens of `ds` the search token `qt` hits
/// (saturating at [`SCORE_CAP`]).
pub open spec fn token_hits(qt: Seq<char>, ds: Seq<Seq<char>>) -> nat
    decreases ds.len(),
{
    if ds.len() == 0 {
        0
    } else {
        sat_add(
            token_hits(qt, ds.drop_last()),
            if token_match(qt, ds.last()) {
                1
            } else {
                0
            },
        )
    }
}

/// The relevance contribution of a whole query: how many (query token,
/// indexed token) pairs match, saturating at [`SCORE_CAP`].
pub open spec fn pair_count(qs: Seq<Seq<char>>, ds: Seq<Seq<char>>) -> nat
    decreases qs.len(),
{
    if qs.len() == 0 {
        0
    } else {
        sat_add(pair_count(qs.drop_last(), ds), token_hits(qs.last(), ds))
    }
}

fn token_hits_exec(qt: &Vec<char>, ds: &Vec<Vec<char>>) -> (n: u32)
    ensures
        n as nat == token_hits(qt@, ds.deep_view()),
        n <= SCORE_CAP,
{
    let mut n: u32 = 0;
    let mut i: usize = 0;
    while i < ds.len()
        invariant
            i <= ds@.len(),
            n <= SCORE_CAP,
            n as nat == token_hits(qt@, ds.deep_view().take(i as int)),
        decreases ds@.len() - i,
    {
        let inc: u32 = if token_match_exec(qt, &ds[i]) {
            1
        } else {
            0
        };
        proof {
            assert(ds@[i as int].deep_view() =~= ds@[i as int]@);
            assert(ds.deep_view().take(i as int + 1).drop_last() =~= ds.deep_view().take(i as int));
            assert(ds.deep_view().take(i as int + 1).last() == ds@[i as int].deep_view());
        }
        if n + inc > SCORE_CAP {
            n = SCORE_CAP;
        } else {
            n = n + inc;
        }
        i = i + 1;
    }
    proof {
        assert(ds.deep_view().take(ds@.len() as int) =~= ds.deep_view());
    }
    n
}

/// The total number of matching token pairs between a query's tokens
/// and a document's tokens, saturating at [`SCORE_CAP`].
pub fn pair_count_exec(qs: &Vec<Vec<char>>, ds: &Vec<Vec<char>>) -> (n: u32)
    ensures
        n as nat == pair_count(qs.deep_view(), ds.deep_view()),
        n <= SCORE_CAP,
{
    let mut n: u32 = 0;
    let mut i: usize = 0;
    while i < qs.len()
        invariant
            i <= qs@.len(),
            n <= SCORE_CAP,
            n as nat == pair_count(qs.deep_view().take(i as int), ds.deep_view()),
        decreases qs@.len() - i,
    {
        let hits = token_hits_exec(&qs[i], ds);
        proof {
            assert(qs@[i as int].deep_view() =~= qs@[i as int]@);
            assert(qs.deep_view().take(i as int + 1).drop_last() =~= qs.deep_view().take(i as int));
            assert(qs.deep_view().take(i as int + 1).last() == qs@[i as int].deep_view());
        }
        if n + hits > SCORE_CAP {
            n = SCORE_CAP;
        } else {
            n = n + hits;
        }
        i = i + 1;
    }
    proof {
        assert(qs.deep_view().take(qs@.len() as int) =~= qs.deep_view());
    }
    n
}

} // verus!
