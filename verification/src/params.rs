//! Request parameters: a string-keyed sequence of scalar values.
//!
//! Callers hand filters in under either a plain key (`"keywords"`) or a
//! list key (`"ids[]"`); a lookup under the plain key sees both, and all
//! values assigned under it, in assignment order.  Identifier-valued
//! parameters may arrive as unsigned numbers or as decimal strings.

use vstd::prelude::*;
use vstd::string::StrSliceExecFns;

verus! {

/// One scalar request parameter.
#[derive(Clone, Debug)]
pub enum Value {
    Str(String),
    UInt(u64),
}

/// A string-keyed parameter collection, in assignment order.
#[derive(Clone, Debug)]
pub struct Params {
    pub entries: Vec<(String, Value)>,
}

/// A stored key answers a lookup for `key` if it is `key` itself or the
/// list form `key[]`.
pub open spec fn key_matches(stored: Seq<char>, key: Seq<char>) -> bool {
    stored == key || stored == key.push('[').push(']')
}

/// The first value assigned under `key`, if any.
pub open spec fn first_value(entries: Seq<(String, Value)>, key: Seq<char>) -> Option<Value>
    decreases entries.len(),
{
    if entries.len() == 0 {
        Option::None
    } else if key_matches(entries[0].0@, key) {
        Option::Some(entries[0].1)
    } else {
        first_value(entries.drop_first(), key)
    }
}

/// The first value under `key` when it is a string; anything else is
/// treated as if the parameter were absent.
pub open spec fn scalar_string(p: Params, key: Seq<char>) -> Option<Seq<char>> {
    match first_value(p.entries@, key) {
        Option::Some(Value::Str(s)) => Option::Some(s@),
        _ => Option::None,
    }
}

/// Decimal value of a digit string (meaningful only for digit strings).
pub open spec fn digits_val(s: Seq<char>) -> int
    decreases s.len(),
{
    if s.len() == 0 {
        0
    } else {
        digits_val(s.drop_last()) * 10 + (s.last() as u32 - 48)
    }
}

/// An ASCII decimal digit.
pub open spec fn is_digit(c: char) -> bool {
    48 <= c as u32 <= 57
}

pub open spec fn is_digit_seq(s: Seq<char>) -> bool {
    s.len() > 0 && forall|i: int| 0 <= i < s.len() ==> is_digit(#[trigger] s[i])
}

/// The identifier a decimal string denotes, if it is one and fits.
pub open spec fn parse_u32(s: Seq<char>) -> Option<u32> {
    if is_digit_seq(s) && digits_val(s) <= u32::MAX {
        Option::Some(digits_val(s) as u32)
    } else {
        Option::None
    }
}

/// The identifier a parameter value denotes, if any.
pub open spec fn id_of_value(v: Value) -> Option<u32> {
    match v {
        Value::UInt(n) => if n <= u32::MAX {
            Option::Some(n as u32)
        } else {
            Option::None
        },
        Value::Str(s) => parse_u32(s@),
    }
}

/// All string values assigned under `key`, in order.
pub open spec fn string_values(p: Params, key: Seq<char>) -> Seq<Seq<char>> {
    string_values_of(p.entries@, key)
}

pub open spec fn string_values_of(entries: Seq<(String, Value)>, key: Seq<char>) -> Seq<Seq<char>>
    decreases entries.len(),
{
    if entries.len() == 0 {
        Seq::empty()
    } else {
        string_values_of(entries.drop_last(), key) + match entries.last() {
            (k, Value::Str(s)) => if key_matches(k@, key) {
                seq![s@]
            } else {
                Seq::empty()
            },
            _ => Seq::empty(),
        }
    }
}

/// All identifiers assigned under `key`, in order; values that denote
/// no identifier contribute nothing.
pub open spec fn id_values(p: Params, key: Seq<char>) -> Seq<u32> {
    id_values_of(p.entries@, key)
}

pub open spec fn id_values_of(entries: Seq<(String, Value)>, key: Seq<char>) -> Seq<u32>
    decreases entries.len(),
{
    if entries.len() == 0 {
        Seq::empty()
    } else {
        id_values_of(entries.drop_last(), key) + if key_matches(entries.last().0@, key)
            && id_of_value(entries.last().1) is Some {
            seq![id_of_value(entries.last().1)->Some_0]
        } else {
            Seq::empty()
        }
    }
}

impl Params {
    /// An empty parameter collection.
    pub fn new() -> (r: Params)
        ensures
            r.entries@ =~= Seq::<(String, Value)>::empty(),
    {
        Params { entries: Vec::new() }
    }

    /// Record one more parameter under `key`.
    pub fn assign(&mut self, key: &str, value: Value)
        ensures
            final(self).entries@.len() == old(self).entries@.len() + 1,
            final(self).entries@.drop_last() == old(self).entries@,
            final(self).entries@.last().0@ == key@,
            final(self).entries@.last().1 == value,
    {
        self.entries.push((key.to_owned(), value));
    }
}

fn keys_match_exec(stored: &str, key: &str) -> (b: bool)
    ensures
        b == key_matches(stored@, key@),
{
    let ns = stored.unicode_len();
    let nk = key.unicode_len();
    if ns == nk || (ns >= 2 && ns - 2 == nk) {
        let mut i: usize = 0;
        while i < nk
            invariant
                nk == key@.len(),
                ns == stored@.len(),
                ns == nk || ns == nk + 2,
                i <= nk,
                forall|m: int| 0 <= m < i ==> stored@[m] == key@[m],
            decreases nk - i,
        {
            if stored.get_char(i) != key.get_char(i) {
                proof {
                    assert(stored@ != key@);
                    assert(stored@ != key@.push('[').push(']'));
                }
                return false;
            }
            i = i + 1;
        }
        if ns == nk {
            proof {
                assert(stored@ =~= key@);
            }
            true
        } else {
            let b = stored.get_char(nk) == '[' && stored.get_char(nk + 1) == ']';
            proof {
                if b {
                    assert(stored@ =~= key@.push('[').push(']'));
                } else {
                    assert(stored@ != key@.push('[').push(']'));
                    assert(stored@.len() != key@.len());
                }
            }
            b
        }
    } else {
        proof {
            assert(stored@.len() != key@.len());
            assert(stored@.len() != key@.push('[').push(']').len());
        }
        false
    }
}

/// The first string value under `key`, as the original assignment order
/// sees it; a non-string first value counts as absent.
pub fn get_scalar_string(p: &Params, key: &str) -> (r: Option<String>)
    ensures
        r is Some <==> scalar_string(*p, key@) is Some,
        r is Some ==> r->Some_0@ == scalar_string(*p, key@)->Some_0,
{
    let n = p.entries.len();
    proof {
        assert(p.entries@.skip(0) =~= p.entries@);
    }
    let mut i: usize = 0;
    while i < n
        invariant
            n == p.entries@.len(),
            i <= n,
            first_value(p.entries@, key@) == first_value(p.entries@.skip(i as int), key@),
        decreases n - i,
    {
        let stored: &(String, Value) = &p.entries[i];
        proof {
            assert(p.entries@.skip(i as int)[0] == p.entries@[i as int]);
            assert(p.entries@.skip(i as int).drop_first() =~= p.entries@.skip(i as int + 1));
        }
        if keys_match_exec(stored.0.as_str(), key) {
            match &stored.1 {
                Value::Str(s) => {
                    return Option::Some(s.as_str().to_owned());
                },
                Value::UInt(_) => {
                    return Option::None;
                },
            }
        }
        i = i + 1;
    }
    proof {
        assert(p.entries@.skip(n as int) =~= Seq::<(String, Value)>::empty());
    }
    Option::None
}

proof fn lemma_digits_val_nonneg(s: Seq<char>)
    requires
        forall|i: int| 0 <= i < s.len() ==> is_digit(#[trigger] s[i]),
    ensures
        digits_val(s) >= 0,
    decreases s.len(),
{
    if s.len() > 0 {
        assert forall|i: int| 0 <= i < s.drop_last().len() implies is_digit(
            #[trigger] s.drop_last()[i],
        ) by {
            assert(s.drop_last()[i] == s[i]);
        }
        lemma_digits_val_nonneg(s.drop_last());
        assert(is_digit(s.last()));
    }
}

proof fn lemma_digits_val_prefix(s: Seq<char>, j: int)
    requires
        forall|i: int| 0 <= i < s.len() ==> is_digit(#[trigger] s[i]),
        0 <= j <= s.len(),
    ensures
        digits_val(s) >= digits_val(s.take(j)),
    decreases s.len(),
{
    if j == s.len() {
        assert(s.take(j) =~= s);
    } else {
        assert forall|i: int| 0 <= i < s.drop_last().len() implies is_digit(
            #[trigger] s.drop_last()[i],
        ) by {
            assert(s.drop_last()[i] == s[i]);
        }
        assert(s.drop_last().take(j) =~= s.take(j));
        lemma_digits_val_prefix(s.drop_last(), j);
        lemma_digits_val_nonneg(s.drop_last());
        assert(is_digit(s.last()));
    }
}

/// The identifier a decimal string denotes, if it is one and fits.
pub fn parse_u32_exec(s: &str) -> (r: Option<u32>)
    ensures
        r == parse_u32(s@),
{
    let n = s.unicode_len();
    if n == 0 {
        return Option::None;
    }
    let mut acc: u64 = 0;
    let mut i: usize = 0;
    while i < n
        invariant
            n == s@.len(),
            0 < n,
            i <= n,
            acc <= u32::MAX,
            forall|m: int| 0 <= m < i ==> is_digit(#[trigger] s@[m]),
            acc as int == digits_val(s@.take(i as int)),
        decreases n - i,
    {
        let c = s.get_char(i);
        let u = c as u32;
        if !(48 <= u && u <= 57) {
            return Option::None;
        }
        acc = acc * 10 + (u - 48) as u64;
        i = i + 1;
        proof {
            assert(s@.take(i as int).drop_last() =~= s@.take(i as int - 1));
        }
        if acc > 0xffffffff {
            proof {
                if is_digit_seq(s@) {
                    lemma_digits_val_prefix(s@, i as int);
                }
            }
            return Option::None;
        }
    }
    proof {
        assert(s@.take(n as int) =~= s@);
    }
    Option::Some(acc as u32)
}

fn id_of_value_exec(v: &Value) -> (r: Option<u32>)
    ensures
        r == id_of_value(*v),
{
    match v {
        Value::UInt(n) => {
            if *n <= 0xffffffff {
                Option::Some(*n as u32)
            } else {
                Option::None
            }
        },
        Value::Str(s) => parse_u32_exec(s.as_str()),
    }
}

/// All string values under `key`, in assignment order.
pub fn collect_strings(p: &Params, key: &str) -> (r: Vec<String>)
    ensures
        r.deep_view() == string_values(*p, key@),
{
    let n = p.entries.len();
    let mut r: Vec<String> = Vec::new();
    let mut i: usize = 0;
    while i < n
        invariant
            n == p.entries@.len(),
            i <= n,
            r.deep_view() == string_values_of(p.entries@.take(i as int), key@),
        decreases n - i,
    {
        let stored: &(String, Value) = &p.entries[i];
        proof {
            assert(p.entries@.take(i as int + 1).drop_last() =~= p.entries@.take(i as int));
            assert(p.entries@.take(i as int + 1).last() == p.entries@[i as int]);
        }
        if keys_match_exec(stored.0.as_str(), key) {
            match &stored.1 {
                Value::Str(s) => {
                    r.push(s.as_str().to_owned());
                },
                Value::UInt(_) => {},
            }
        }
        i = i + 1;
        proof {
            assert(r.deep_view() =~~= string_values_of(p.entries@.take(i as int), key@));
        }
    }
    proof {
        assert(p.entries@.take(n as int) =~= p.entries@);
    }
    r
}

/// All identifiers under `key`, in assignment order.
pub fn collect_ids(p: &Params, key: &str) -> (r: Vec<u32>)
    ensures
        r@ == id_values(*p, key@),
{
    let n = p.entries.len();
    let mut r: Vec<u32> = Vec::new();
    let mut i: usize = 0;
    while i < n
        invariant
            n == p.entries@.len(),
            i <= n,
            r@ == id_values_of(p.entries@.take(i as int), key@),
        decreases n - i,
    {
        let stored: &(String, Value) = &p.entries[i];
        proof {
            assert(p.entries@.take(i as int + 1).drop_last() =~= p.entries@.take(i as int));
            assert(p.entries@.take(i as int + 1).last() == p.entries@[i as int]);
        }
        if keys_match_exec(stored.0.as_str(), key) {
            match id_of_value_exec(&stored.1) {
                Option::Some(id) => {
                    r.push(id);
                },
                Option::None => {},
            }
        }
        i = i + 1;
        proof {
            assert(r@ =~= id_values_of(p.entries@.take(i as int), key@));
        }
    }
    proof {
        assert(p.entries@.take(n as int) =~= p.entries@);
    }
    r
}

} // verus!
