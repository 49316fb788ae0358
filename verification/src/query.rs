//! The query tree and its meaning.
//!
//! A search request is compiled into an immutable tree of query nodes.
//! [`eval`] gives the tree its semantics over a single entity: which
//! profiles the query selects.  The builders that produce the trees are
//! specified directly against this semantics.

use vstd::prelude::*;

use crate::entity::Talent;
use crate::order::lex_le;
use crate::order::str_eq;
use crate::order::str_lex_le;
use crate::params::Params;
use crate::params::collect_ids;
use crate::params::collect_strings;
use crate::params::id_values;
use crate::params::scalar_string;
use crate::params::string_values;
use crate::text::SepClass;
use crate::text::TextField;
use crate::text::chars_of;
use crate::text::lower_exec;
use crate::text::lower_seq;
use crate::text::pair_count;
use crate::text::pair_count_exec;
use crate::text::split_exec;
use crate::text::split_tokens;

verus! {

/// String-valued fields a terms filter can target.
#[derive(Clone, Copy, Debug, PartialEq, Eq, Structural)]
pub enum StrField {
    WorkRoles,
    WorkExperience,
    WorkAuthorization,
    WorkLocations,
}

/// Identifier-valued fields a terms filter can target.
#[derive(Clone, Copy, Debug, PartialEq, Eq, Structural)]
pub enum IdField {
    Id,
    CompanyIds,
    BlockedCompanies,
}

/// Timestamp fields a range filter can target.
#[derive(Clone, Copy, Debug, PartialEq, Eq, Structural)]
pub enum DateField {
    BatchStartsAt,
    BatchEndsAt,
}

/// One node of the boolean query tree.
pub enum QueryNode {
    /// Exact match on the acceptance flag.
    TermAccepted { value: bool },
    /// Any of `values` equals (or, for list fields, occurs in) the field.
    TermsStr { field: StrField, values: Vec<String> },
    /// Any of `values` equals (or occurs in) the identifier field.
    TermsId { field: IdField, values: Vec<u32> },
    /// The timestamp field is at or before `bound`.
    RangeLe { field: DateField, bound: String },
    /// The timestamp field is at or after `bound`.
    RangeGe { field: DateField, bound: String },
    /// Cross-field full-text match: the query's tokens are matched
    /// against the union of the listed fields' indexed tokens, as if
    /// they were one field.  The tie-breaker (in thousandths) would
    /// blend per-field sub-scores; it is kept at zero here, so matching
    /// is governed by the cross-field token union alone.
    MultiMatch { fields: Vec<TextField>, keywords: String, tie_breaker_millis: u32 },
    /// Boolean combination: every `must` holds, at least one `should`
    /// holds (when any is given), and no `must_not` holds.
    Bool { must: Vec<QueryNode>, should: Vec<QueryNode>, must_not: Vec<QueryNode> },
}

/// Whether the string `v` matches the given field of `t`.
pub open spec fn str_field_has(t: Talent, f: StrField, v: Seq<char>) -> bool {
    match f {
        StrField::WorkRoles => t.work_roles.deep_view().contains(v),
        StrField::WorkExperience => t.work_experience@ == v,
        StrField::WorkAuthorization => t.work_authorization@ == v,
        StrField::WorkLocations => t.work_locations.deep_view().contains(v),
    }
}

/// Whether the identifier `v` matches the given field of `t`.
pub open spec fn id_field_has(t: Talent, f: IdField, v: u32) -> bool {
    match f {
        IdField::Id => t.id == v,
        IdField::CompanyIds => t.company_ids@.contains(v),
        IdField::BlockedCompanies => t.blocked_companies@.contains(v),
    }
}

/// The timestamp held by the given field of `t`.
pub open spec fn date_field_of(t: Talent, f: DateField) -> Seq<char> {
    match f {
        DateField::BatchStartsAt => t.batch_starts_at@,
        DateField::BatchEndsAt => t.batch_ends_at@,
    }
}

/// Search-time analysis of a keyword string: whitespace tokens plus
/// their word-delimited alphanumeric runs, all lower-cased.
pub open spec fn query_tokens(q: Seq<char>) -> Seq<Seq<char>> {
    split_tokens(lower_seq(q), SepClass::Whitespace) + split_tokens(
        lower_seq(q),
        SepClass::NonAlnum,
    )
}

/// Index-time whitespace tokens of one text, lower-cased.
pub open spec fn ws_tokens(s: Seq<char>) -> Seq<Seq<char>> {
    split_tokens(lower_seq(s), SepClass::Whitespace)
}

/// Indexed tokens of a sequence of texts, in order.
pub open spec fn texts_tokens(ts: Seq<Seq<char>>) -> Seq<Seq<char>>
    decreases ts.len(),
{
    if ts.len() == 0 {
        Seq::empty()
    } else {
        texts_tokens(ts.drop_last()) + ws_tokens(ts.last())
    }
}

/// The indexed tokens of one analyzed field of `t`.
pub open spec fn field_tokens(t: Talent, f: TextField) -> Seq<Seq<char>> {
    match f {
        TextField::Skills => texts_tokens(t.skills.deep_view()),
        TextField::Summary => ws_tokens(t.summary@),
    }
}

/// The union (in field order) of the indexed tokens of several fields.
pub open spec fn fields_tokens(t: Talent, fs: Seq<TextField>) -> Seq<Seq<char>>
    decreases fs.len(),
{
    if fs.len() == 0 {
        Seq::empty()
    } else {
        fields_tokens(t, fs.drop_last()) + field_tokens(t, fs.last())
    }
}

/// Relevance of `t` for the keyword string `q` over the fields `fs`:
/// the number of matching (query token, indexed token) pairs.
pub open spec fn text_score(q: Seq<char>, t: Talent, fs: Seq<TextField>) -> nat {
    pair_count(query_tokens(q), fields_tokens(t, fs))
}

/// Whether `t` matches a free-text query over the two standard fields.
pub open spec fn text_matches(q: Seq<char>, t: Talent) -> bool {
    text_score(q, t, seq![TextField::Skills, TextField::Summary]) > 0
}

/// What a query node means: whether the entity `t` satisfies it.
pub open spec fn eval(q: QueryNode, t: Talent) -> bool
    decreases q,
{
    match q {
        QueryNode::TermAccepted { value } => t.accepted == value,
        QueryNode::TermsStr { field, values } => exists|i: int|
            0 <= i < values@.len() && str_field_has(t, field, #[trigger] values@[i]@),
        QueryNode::TermsId { field, values } => exists|i: int|
            0 <= i < values@.len() && id_field_has(t, field, #[trigger] values@[i]),
        QueryNode::RangeLe { field, bound } => lex_le(date_field_of(t, field), bound@),
        QueryNode::RangeGe { field, bound } => lex_le(bound@, date_field_of(t, field)),
        QueryNode::MultiMatch { fields, keywords, tie_breaker_millis } => text_score(
            keywords@,
            t,
            fields@,
        ) > 0,
        QueryNode::Bool { must, should, must_not } => (forall|i: int|
            0 <= i < must@.len() ==> eval(#[trigger] must@[i], t)) && (should@.len() == 0
            || exists|i: int| 0 <= i < should@.len() && eval(#[trigger] should@[i], t)) && (forall|
            i: int,
        |
            0 <= i < must_not@.len() ==> !eval(#[trigger] must_not@[i], t)),
    }
}

/// Every node of `s` holds of `t`.
pub open spec fn all_eval(s: Seq<QueryNode>, t: Talent) -> bool {
    forall|i: int| 0 <= i < s.len() ==> eval(#[trigger] s[i], t)
}

/// No node of `s` holds of `t`.
pub open spec fn none_eval(s: Seq<QueryNode>, t: Talent) -> bool {
    forall|i: int| 0 <= i < s.len() ==> !eval(#[trigger] s[i], t)
}

/// `s` is empty, or some node of `s` holds of `t`.
pub open spec fn any_or_empty_eval(s: Seq<QueryNode>, t: Talent) -> bool {
    s.len() == 0 || exists|i: int| 0 <= i < s.len() && eval(#[trigger] s[i], t)
}

/// What a boolean node means, phrased over its three child lists.
pub proof fn lemma_bool_eval(q: QueryNode)
    requires
        q is Bool,
    ensures
        forall|t: Talent|
            #[trigger] eval(q, t) == (all_eval(q->Bool_must@, t) && any_or_empty_eval(
                q->Bool_should@,
                t,
            ) && none_eval(q->Bool_must_not@, t)),
{
    assert forall|t: Talent|
        #[trigger] eval(q, t) == (all_eval(q->Bool_must@, t) && any_or_empty_eval(
            q->Bool_should@,
            t,
        ) && none_eval(q->Bool_must_not@, t)) by {
        assert(eval(q, t) == ((forall|i: int|
            0 <= i < q->Bool_must@.len() ==> eval(#[trigger] q->Bool_must@[i], t)) && (
        q->Bool_should@.len() == 0 || exists|i: int|
            0 <= i < q->Bool_should@.len() && eval(#[trigger] q->Bool_should@[i], t)) && (forall|
            i: int,
        |
            0 <= i < q->Bool_must_not@.len() ==> !eval(#[trigger] q->Bool_must_not@[i], t))));
    }
}

fn str_in_list(items: &Vec<String>, v: &str) -> (r: bool)
    ensures
        r == items.deep_view().contains(v@),
{
    let mut i: usize = 0;
    while i < items.len()
        invariant
            i <= items@.len(),
            forall|m: int| 0 <= m < i ==> items.deep_view()[m] != v@,
        decreases items@.len() - i,
    {
        if str_eq(items[i].as_str(), v) {
            proof {
                assert(items.deep_view()[i as int] == v@);
            }
            return true;
        }
        i = i + 1;
    }
    proof {
        assert(forall|m: int| 0 <= m < items.deep_view().len() ==> items.deep_view()[m] != v@);
    }
    false
}

fn id_in_list(items: &Vec<u32>, v: u32) -> (r: bool)
    ensures
        r == items@.contains(v),
{
    let mut i: usize = 0;
    while i < items.len()
        invariant
            i <= items@.len(),
            forall|m: int| 0 <= m < i ==> items@[m] != v,
        decreases items@.len() - i,
    {
        if items[i] == v {
            return true;
        }
        i = i + 1;
    }
    false
}

fn str_field_has_exec(t: &Talent, f: StrField, v: &str) -> (r: bool)
    ensures
        r == str_field_has(*t, f, v@),
{
    match f {
        StrField::WorkRoles => str_in_list(&t.work_roles, v),
        StrField::WorkExperience => str_eq(t.work_experience.as_str(), v),
        StrField::WorkAuthorization => str_eq(t.work_authorization.as_str(), v),
        StrField::WorkLocations => str_in_list(&t.work_locations, v),
    }
}

fn id_field_has_exec(t: &Talent, f: IdField, v: u32) -> (r: bool)
    ensures
        r == id_field_has(*t, f, v),
{
    match f {
        IdField::Id => t.id == v,
        IdField::CompanyIds => id_in_list(&t.company_ids, v),
        IdField::BlockedCompanies => id_in_list(&t.blocked_companies, v),
    }
}

fn tokens_of_text(s: &str, k: SepClass) -> (r: Vec<Vec<char>>)
    ensures
        r.deep_view() == split_tokens(lower_seq(s@), k),
{
    let cs = chars_of(s);
    let lowered = lower_exec(&cs);
    split_exec(&lowered, k)
}

/// Search-time analysis of a keyword string.
pub fn query_tokens_exec(q: &str) -> (r: Vec<Vec<char>>)
    ensures
        r.deep_view() == query_tokens(q@),
{
    let mut r = tokens_of_text(q, SepClass::Whitespace);
    let mut runs = tokens_of_text(q, SepClass::NonAlnum);
    r.append(&mut runs);
    proof {
        assert(r.deep_view() =~~= query_tokens(q@));
    }
    r
}

fn field_tokens_exec(t: &Talent, f: TextField) -> (r: Vec<Vec<char>>)
    ensures
        r.deep_view() == field_tokens(*t, f),
{
    match f {
        TextField::Summary => tokens_of_text(t.summary.as_str(), SepClass::Whitespace),
        TextField::Skills => {
            let n = t.skills.len();
            let mut r: Vec<Vec<char>> = Vec::new();
            let mut i: usize = 0;
            while i < n
                invariant
                    n == t.skills@.len(),
                    i <= n,
                    r.deep_view() == texts_tokens(t.skills.deep_view().take(i as int)),
                decreases n - i,
            {
                let mut toks = tokens_of_text(t.skills[i].as_str(), SepClass::Whitespace);
                r.append(&mut toks);
                i = i + 1;
                proof {
                    assert(t.skills.deep_view().take(i as int).drop_last() =~= t.skills.deep_view()
                        .take(i as int - 1));
                    assert(t.skills.deep_view().take(i as int).last() == t.skills@[i as int
                        - 1].deep_view());
                    assert(r.deep_view() =~~= texts_tokens(t.skills.deep_view().take(i as int)));
                }
            }
            proof {
                assert(t.skills.deep_view().take(n as int) =~= t.skills.deep_view());
            }
            r
        },
    }
}

fn fields_tokens_exec(t: &Talent, fs: &Vec<TextField>) -> (r: Vec<Vec<char>>)
    ensures
        r.deep_view() == fields_tokens(*t, fs@),
{
    let n = fs.len();
    let mut r: Vec<Vec<char>> = Vec::new();
    let mut i: usize = 0;
    while i < n
        invariant
            n == fs@.len(),
            i <= n,
            r.deep_view() == fields_tokens(*t, fs@.take(i as int)),
        decreases n - i,
    {
        let mut toks = field_tokens_exec(t, fs[i]);
        r.append(&mut toks);
        i = i + 1;
        proof {
            assert(fs@.take(i as int).drop_last() =~= fs@.take(i as int - 1));
            assert(r.deep_view() =~~= fields_tokens(*t, fs@.take(i as int)));
        }
    }
    proof {
        assert(fs@.take(n as int) =~= fs@);
    }
    r
}

/// The relevance of `t` for the keyword string `q` over the fields `fs`.
pub fn text_score_exec(q: &str, t: &Talent, fs: &Vec<TextField>) -> (n: u32)
    ensures
        n as nat == text_score(q@, *t, fs@),
        n <= crate::text::SCORE_CAP,
{
    let qs = query_tokens_exec(q);
    let ds = fields_tokens_exec(t, fs);
    pair_count_exec(&qs, &ds)
}

/// Whether `t` satisfies the query node `q`.
#[verifier::loop_isolation(false)]
pub fn eval_exec(q: &QueryNode, t: &Talent) -> (r: bool)
    ensures
        r == eval(*q, *t),
    decreases *q,
{
    match q {
        QueryNode::TermAccepted { value } => t.accepted == *value,
        QueryNode::TermsStr { field, values } => {
            let mut i: usize = 0;
            while i < values.len()
                invariant
                    i <= values@.len(),
                    forall|m: int| 0 <= m < i ==> !str_field_has(*t, *field, #[trigger] values@[m]@),
                decreases values@.len() - i,
            {
                if str_field_has_exec(t, *field, values[i].as_str()) {
                    proof {
                        assert(str_field_has(*t, *field, values@[i as int]@));
                    }
                    return true;
                }
                i = i + 1;
            }
            false
        },
        QueryNode::TermsId { field, values } => {
            let mut i: usize = 0;
            while i < values.len()
                invariant
                    i <= values@.len(),
                    forall|m: int| 0 <= m < i ==> !id_field_has(*t, *field, #[trigger] values@[m]),
                decreases values@.len() - i,
            {
                if id_field_has_exec(t, *field, values[i]) {
                    proof {
                        assert(id_field_has(*t, *field, values@[i as int]));
                    }
                    return true;
                }
                i = i + 1;
            }
            false
        },
        QueryNode::RangeLe { field, bound } => {
            match field {
                DateField::BatchStartsAt => str_lex_le(t.batch_starts_at.as_str(), bound.as_str()),
                DateField::BatchEndsAt => str_lex_le(t.batch_ends_at.as_str(), bound.as_str()),
            }
        },
        QueryNode::RangeGe { field, bound } => {
            match field {
                DateField::BatchStartsAt => str_lex_le(bound.as_str(), t.batch_starts_at.as_str()),
                DateField::BatchEndsAt => str_lex_le(bound.as_str(), t.batch_ends_at.as_str()),
            }
        },
        QueryNode::MultiMatch { fields, keywords, tie_breaker_millis } => {
            let n = text_score_exec(keywords.as_str(), t, fields);
            n > 0
        },
        QueryNode::Bool { must, should, must_not } => {
            let mut i: usize = 0;
            while i < must.len()
                invariant
                    i <= must@.len(),
                    forall|m: int| 0 <= m < i ==> eval(#[trigger] must@[m], *t),
                decreases must@.len() - i,
            {
                if !eval_exec(&must[i], t) {
                    return false;
                }
                i = i + 1;
            }
            let mut j: usize = 0;
            let mut any_should = should.len() == 0;
            while j < should.len()
                invariant
                    j <= should@.len(),
                    any_should == (should@.len() == 0 || exists|m: int|
                        0 <= m < j && eval(#[trigger] should@[m], *t)),
                decreases should@.len() - j,
            {
                if eval_exec(&should[j], t) {
                    any_should = true;
                    j = should.len();
                } else {
                    j = j + 1;
                }
            }
            if !any_should {
                return false;
            }
            let mut k: usize = 0;
            while k < must_not.len()
                invariant
                    k <= must_not@.len(),
                    forall|m: int| 0 <= m < k ==> !eval(#[trigger] must_not@[m], *t),
                decreases must_not@.len() - k,
            {
                if eval_exec(&must_not[k], t) {
                    return false;
                }
                k = k + 1;
            }
            true
        },
    }
}

/// An empty value list constrains nothing; otherwise some value must
/// match the field.
pub open spec fn str_filter_ok(t: Talent, f: StrField, vals: Seq<Seq<char>>) -> bool {
    vals.len() == 0 || exists|i: int| 0 <= i < vals.len() && str_field_has(t, f, #[trigger] vals[i])
}

/// An empty allow-list constrains nothing; otherwise the entity's
/// identifier must be listed.
pub open spec fn ids_filter_ok(t: Talent, ids: Seq<u32>) -> bool {
    ids.len() == 0 || ids.contains(t.id)
}

/// The visibility rule: accepted and inside the batch window at
/// `epoch`, unless the entity is explicitly presented.
pub open spec fn visible(t: Talent, epoch: Seq<char>, presented: Seq<u32>) -> bool {
    (t.accepted && lex_le(t.batch_starts_at@, epoch) && lex_le(epoch, t.batch_ends_at@))
        || presented.contains(t.id)
}

/// Some given company identifier occurs in the entity's owning or
/// blocked company list.
pub open spec fn company_excluded(t: Talent, cs: Seq<u32>) -> bool {
    exists|i: int|
        0 <= i < cs.len() && (t.company_ids@.contains(#[trigger] cs[i])
            || t.blocked_companies@.contains(cs[i]))
}

/// The keyword string handed in with the request, if any.
pub open spec fn keywords_param(p: Params) -> Option<Seq<char>> {
    scalar_string(p, "keywords"@)
}

/// A free-text search is requested exactly when a non-empty keyword
/// string is present.
pub open spec fn text_search_requested(p: Params) -> bool {
    match keywords_param(p) {
        Option::Some(kw) => kw.len() > 0,
        Option::None => false,
    }
}

/// The free-text constraint: absent or empty keywords constrain
/// nothing; otherwise the entity must match the keyword query.
pub open spec fn text_constraint_ok(p: Params, t: Talent) -> bool {
    !text_search_requested(p) || text_matches(keywords_param(p)->Some_0, t)
}

/// The full meaning of one search request at `epoch`: within a filter
/// category the supplied values are ORed, across categories the
/// filters are ANDed, and a listed company excludes the entity
/// whatever else matches.
pub open spec fn matches_params(p: Params, epoch: Seq<char>, t: Talent) -> bool {
    &&& str_filter_ok(t, StrField::WorkRoles, string_values(p, "work_roles"@))
    &&& str_filter_ok(t, StrField::WorkExperience, string_values(p, "work_experience"@))
    &&& str_filter_ok(t, StrField::WorkAuthorization, string_values(p, "work_authorization"@))
    &&& str_filter_ok(t, StrField::WorkLocations, string_values(p, "work_locations"@))
    &&& ids_filter_ok(t, id_values(p, "ids"@))
    &&& text_constraint_ok(p, t)
    &&& visible(t, epoch, id_values(p, "presented_talents"@))
    &&& !company_excluded(t, id_values(p, "company_id"@))
}

/// The shape of the node a free-text request compiles to.
pub open spec fn standard_text_node(q: QueryNode, kw: Seq<char>) -> bool {
    &&& q is MultiMatch
    &&& q->MultiMatch_fields@ == seq![TextField::Skills, TextField::Summary]
    &&& q->MultiMatch_keywords@ == kw
    &&& q->MultiMatch_tie_breaker_millis == 0
}

proof fn lemma_all_eval_push(s: Seq<QueryNode>, x: QueryNode)
    ensures
        forall|t: Talent| all_eval(s.push(x), t) == (all_eval(s, t) && eval(x, t)),
{
    assert forall|t: Talent| all_eval(s.push(x), t) == (all_eval(s, t) && eval(x, t)) by {
        let sp = s.push(x);
        assert(sp[s.len() as int] == x);
        if all_eval(sp, t) {
            assert forall|i: int| 0 <= i < s.len() implies eval(#[trigger] s[i], t) by {
                assert(eval(sp[i], t));
            }
        }
        if all_eval(s, t) && eval(x, t) {
            assert forall|i: int| 0 <= i < sp.len() implies eval(#[trigger] sp[i], t) by {
                if i < s.len() {
                    assert(sp[i] == s[i]);
                }
            }
        }
    }
}

proof fn lemma_none_eval_push(s: Seq<QueryNode>, x: QueryNode)
    ensures
        forall|t: Talent| none_eval(s.push(x), t) == (none_eval(s, t) && !eval(x, t)),
{
    assert forall|t: Talent| none_eval(s.push(x), t) == (none_eval(s, t) && !eval(x, t)) by {
        let sp = s.push(x);
        assert(sp[s.len() as int] == x);
        if none_eval(sp, t) {
            assert forall|i: int| 0 <= i < s.len() implies !eval(#[trigger] s[i], t) by {
                assert(!eval(sp[i], t));
            }
        }
        if none_eval(s, t) && !eval(x, t) {
            assert forall|i: int| 0 <= i < sp.len() implies !eval(#[trigger] sp[i], t) by {
                if i < s.len() {
                    assert(sp[i] == s[i]);
                }
            }
        }
    }
}

proof fn lemma_terms_str_meaning(f: StrField, values: Vec<String>)
    requires
        values@.len() > 0,
    ensures
        forall|t: Talent|
            eval(QueryNode::TermsStr { field: f, values }, t) == str_filter_ok(
                t,
                f,
                values.deep_view(),
            ),
{
    let vd = values.deep_view();
    let node = QueryNode::TermsStr { field: f, values };
    assert(node->TermsStr_field == f);
    assert(node->TermsStr_values == values);
    assert(forall|i: int| 0 <= i < vd.len() ==> #[trigger] vd[i] == values@[i]@);
    assert forall|t: Talent|
        eval(QueryNode::TermsStr { field: f, values }, t) == str_filter_ok(t, f, vd) by {
        assert(eval(node, t) == (exists|i: int|
            0 <= i < values@.len() && str_field_has(t, f, #[trigger] values@[i]@)));
        if eval(QueryNode::TermsStr { field: f, values }, t) {
            let i = choose|i: int|
                0 <= i < values@.len() && str_field_has(t, f, #[trigger] values@[i]@);
            assert(str_field_has(t, f, vd[i]));
        }
        if str_filter_ok(t, f, vd) {
            let i = choose|i: int| 0 <= i < vd.len() && str_field_has(t, f, #[trigger] vd[i]);
            assert(str_field_has(t, f, values@[i]@));
        }
    }
}

fn copy_ids(v: &Vec<u32>) -> (r: Vec<u32>)
    ensures
        r@ == v@,
{
    let mut r: Vec<u32> = Vec::new();
    let mut i: usize = 0;
    while i < v.len()
        invariant
            i <= v@.len(),
            r@ == v@.take(i as int),
        decreases v@.len() - i,
    {
        r.push(v[i]);
        i = i + 1;
        proof {
            assert(r@ =~= v@.take(i as int));
        }
    }
    proof {
        assert(v@.take(v@.len() as int) =~= v@);
    }
    r
}

fn push_str_terms(must: &mut Vec<QueryNode>, f: StrField, values: Vec<String>)
    ensures
        forall|t: Talent|
            all_eval(final(must)@, t) == (all_eval(old(must)@, t) && str_filter_ok(
                t,
                f,
                values.deep_view(),
            )),
{
    if values.len() == 0 {
        proof {
            assert(values.deep_view().len() == 0);
        }
    } else {
        proof {
            lemma_terms_str_meaning(f, values);
            lemma_all_eval_push(must@, QueryNode::TermsStr { field: f, values });
        }
        must.push(QueryNode::TermsStr { field: f, values });
    }
}

fn push_ids_allow(must: &mut Vec<QueryNode>, ids: Vec<u32>)
    ensures
        forall|t: Talent|
            #[trigger] all_eval(final(must)@, t) == (all_eval(old(must)@, t) && ids_filter_ok(
                t,
                ids@,
            )),
{
    if ids.len() == 0 {
    } else {
        let ghost node = QueryNode::TermsId { field: IdField::Id, values: ids };
        proof {
            assert(node->TermsId_field == IdField::Id);
            assert(node->TermsId_values == ids);
            assert forall|t: Talent| eval(node, t) == ids_filter_ok(t, ids@) by {
                assert(eval(node, t) == (exists|i: int|
                    0 <= i < ids@.len() && id_field_has(t, IdField::Id, #[trigger] ids@[i])));
                if eval(node, t) {
                    let i = choose|i: int|
                        0 <= i < ids@.len() && id_field_has(t, IdField::Id, #[trigger] ids@[i]);
                    assert(ids@[i] == t.id);
                }
                if ids@.contains(t.id) {
                    let i = choose|i: int| 0 <= i < ids@.len() && ids@[i] == t.id;
                    assert(id_field_has(t, IdField::Id, ids@[i]));
                }
            }
            lemma_all_eval_push(must@, node);
        }
        must.push(QueryNode::TermsId { field: IdField::Id, values: ids });
    }
}

impl Talent {
    /// The visibility sub-query at `epoch`: one node selecting exactly
    /// the entities that are accepted and inside their batch window,
    /// or whose identifier is among the presented ones, which bypass
    /// the standard rule entirely.
    pub fn visibility_filters(epoch: &str, presented_talents: &Vec<u32>) -> (r: Vec<QueryNode>)
        ensures
            r@.len() == 1,
            forall|t: Talent|
                eval(#[trigger] r@[0], t) == visible(t, epoch@, presented_talents@),
    {
        let mut rule_must: Vec<QueryNode> = Vec::new();
        rule_must.push(QueryNode::TermAccepted { value: true });
        rule_must.push(
            QueryNode::RangeLe { field: DateField::BatchStartsAt, bound: epoch.to_owned() },
        );
        rule_must.push(
            QueryNode::RangeGe { field: DateField::BatchEndsAt, bound: epoch.to_owned() },
        );
        let ghost rm = rule_must@;
        let rules = QueryNode::Bool {
            must: rule_must,
            should: Vec::new(),
            must_not: Vec::new(),
        };
        proof {
            lemma_bool_eval(rules);
            assert forall|t: Talent|
                eval(rules, t) == (t.accepted && lex_le(t.batch_starts_at@, epoch@) && lex_le(
                    epoch@,
                    t.batch_ends_at@,
                )) by {
                assert(rules->Bool_must@ == rm);
                assert(rules->Bool_should@.len() == 0);
                assert(rules->Bool_must_not@.len() == 0);
                assert(rm.len() == 3);
                assert(eval(rm[0], t) == t.accepted);
                assert(eval(rm[1], t) == lex_le(t.batch_starts_at@, epoch@));
                assert(eval(rm[2], t) == lex_le(epoch@, t.batch_ends_at@));
                if eval(rm[0], t) && eval(rm[1], t) && eval(rm[2], t) {
                    assert forall|i: int| 0 <= i < rm.len() implies eval(#[trigger] rm[i], t) by {
                        assert(i == 0 || i == 1 || i == 2);
                    }
                }
            }
        }
        let mut r: Vec<QueryNode> = Vec::new();
        if presented_talents.len() > 0 {
            let ids = copy_ids(presented_talents);
            let ghost idsv = ids@;
            let mut inner_must: Vec<QueryNode> = Vec::new();
            inner_must.push(QueryNode::TermsId { field: IdField::Id, values: ids });
            let ghost im = inner_must@;
            let inner = QueryNode::Bool {
                must: inner_must,
                should: Vec::new(),
                must_not: Vec::new(),
            };
            proof {
                lemma_bool_eval(inner);
                assert forall|t: Talent| eval(inner, t) == presented_talents@.contains(t.id) by {
                    assert(inner->Bool_must@ == im);
                    assert(inner->Bool_should@.len() == 0);
                    assert(inner->Bool_must_not@.len() == 0);
                    assert(im.len() == 1);
                    assert(im[0]->TermsId_field == IdField::Id);
                    assert(im[0]->TermsId_values@ == idsv);
                    assert(eval(im[0], t) == (exists|i: int|
                        0 <= i < idsv.len() && id_field_has(t, IdField::Id, #[trigger] idsv[i])));
                    if eval(inner, t) {
                        assert(eval(im[0], t));
                        let i = choose|i: int|
                            0 <= i < idsv.len() && id_field_has(t, IdField::Id, #[trigger] idsv[i]);
                        assert(idsv[i] == t.id);
                    }
                    if presented_talents@.contains(t.id) {
                        let i = choose|i: int| 0 <= i < idsv.len() && idsv[i] == t.id;
                        assert(id_field_has(t, IdField::Id, idsv[i]));
                        assert(eval(im[0], t));
                        assert forall|m: int| 0 <= m < im.len() implies eval(
                            #[trigger] im[m],
                            t,
                        ) by {
                            assert(m == 0);
                        }
                    }
                }
            }
            let mut should: Vec<QueryNode> = Vec::new();
            should.push(rules);
            should.push(inner);
            let ghost sh = should@;
            let node = QueryNode::Bool { must: Vec::new(), should, must_not: Vec::new() };
            proof {
                lemma_bool_eval(node);
                assert forall|t: Talent|
                    eval(node, t) == visible(t, epoch@, presented_talents@) by {
                    assert(node->Bool_should@ == sh);
                    assert(node->Bool_must@.len() == 0);
                    assert(node->Bool_must_not@.len() == 0);
                    assert(sh.len() == 2);
                    assert(eval(sh[0], t) == (t.accepted && lex_le(t.batch_starts_at@, epoch@)
                        && lex_le(epoch@, t.batch_ends_at@)));
                    assert(eval(sh[1], t) == presented_talents@.contains(t.id));
                    if eval(sh[0], t) || eval(sh[1], t) {
                        if eval(sh[0], t) {
                            assert(exists|i: int|
                                0 <= i < sh.len() && eval(#[trigger] sh[i], t)) by {
                                assert(eval(sh[0], t));
                            }
                        } else {
                            assert(exists|i: int|
                                0 <= i < sh.len() && eval(#[trigger] sh[i], t)) by {
                                assert(eval(sh[1], t));
                            }
                        }
                    }
                    if exists|i: int| 0 <= i < sh.len() && eval(#[trigger] sh[i], t) {
                        let i = choose|i: int| 0 <= i < sh.len() && eval(#[trigger] sh[i], t);
                        assert(i == 0 || i == 1);
                    }
                }
            }
            r.push(node);
        } else {
            proof {
                assert(forall|t: Talent| !presented_talents@.contains(t.id));
            }
            r.push(rules);
        }
        r
    }

    /// The free-text query node, if a non-empty keyword string was
    /// handed in: a cross-field match over skills and summary with a
    /// zero tie-breaker.  An absent or empty keyword string yields no
    /// node, so it constrains nothing.
    pub fn full_text_search(params: &Params) -> (r: Option<QueryNode>)
        ensures
            (r is Some) == text_search_requested(*params),
            r is Some ==> standard_text_node(r->Some_0, keywords_param(*params)->Some_0),
            forall|t: Talent|
                (match r {
                    Option::Some(q) => eval(q, t),
                    Option::None => true,
                }) == text_constraint_ok(*params, t),
    {
        let kw = crate::params::get_scalar_string(params, "keywords");
        match kw {
            Option::Some(keywords) => {
                if keywords.as_str().is_empty() {
                    Option::None
                } else {
                    let mut fields: Vec<TextField> = Vec::new();
                    fields.push(TextField::Skills);
                    fields.push(TextField::Summary);
                    proof {
                        assert(fields@ =~= seq![TextField::Skills, TextField::Summary]);
                    }
                    let node = QueryNode::MultiMatch {
                        fields,
                        keywords,
                        tie_breaker_millis: 0,
                    };
                    Option::Some(node)
                }
            },
            Option::None => Option::None,
        }
    }
}


impl Talent {
    /// The composite query for one request at `epoch`.  Within one
    /// filter category the supplied values are ORed; across categories
    /// the filters are ANDed; empty categories constrain nothing.  The
    /// visibility rule always applies, and an entity owning or blocking
    /// a given company identifier is excluded whatever else matches.
    pub fn search_filters(params: &Params, epoch: &str) -> (r: QueryNode)
        ensures
            forall|t: Talent| #[trigger] eval(r, t) == matches_params(*params, epoch@, t),
    {
        let mut must: Vec<QueryNode> = Vec::new();
        let ghost m0 = must@;
        let roles = collect_strings(params, "work_roles");
        let ghost rolesd = roles.deep_view();
        push_str_terms(&mut must, StrField::WorkRoles, roles);
        let ghost m1 = must@;
        let experience = collect_strings(params, "work_experience");
        let ghost experienced = experience.deep_view();
        push_str_terms(&mut must, StrField::WorkExperience, experience);
        let ghost m2 = must@;
        let authorization = collect_strings(params, "work_authorization");
        let ghost authorizationd = authorization.deep_view();
        push_str_terms(&mut must, StrField::WorkAuthorization, authorization);
        let ghost m3 = must@;
        let locations = collect_strings(params, "work_locations");
        let ghost locationsd = locations.deep_view();
        push_str_terms(&mut must, StrField::WorkLocations, locations);
        let ghost m4 = must@;
        let allow = collect_ids(params, "ids");
        let ghost allowv = allow@;
        push_ids_allow(&mut must, allow);
        let ghost m5 = must@;
        let text = Talent::full_text_search(params);
        let ghost text_g = text;
        match text {
            Option::Some(q) => {
                proof {
                    lemma_all_eval_push(must@, q);
                }
                must.push(q);
            },
            Option::None => {},
        }
        let ghost m6 = must@;
        let presented = collect_ids(params, "presented_talents");
        let vis = Talent::visibility_filters(epoch, &presented);
        let ghost visv = vis@;
        let mut vis_mut = vis;
        let visnode = vis_mut.remove(0);
        proof {
            assert(visnode == visv[0]);
            lemma_all_eval_push(must@, visnode);
        }
        must.push(visnode);
        let companies = collect_ids(params, "company_id");
        let ghost cs = companies@;
        let mut must_not: Vec<QueryNode> = Vec::new();
        if companies.len() > 0 {
            let companies_again = copy_ids(&companies);
            let ghost node_own = QueryNode::TermsId {
                field: IdField::CompanyIds,
                values: companies,
            };
            let ghost node_blk = QueryNode::TermsId {
                field: IdField::BlockedCompanies,
                values: companies_again,
            };
            proof {
                assert(node_own->TermsId_values@ == cs);
                assert(node_blk->TermsId_values@ == cs);
                assert forall|t: Talent|
                    (!eval(node_own, t) && !eval(node_blk, t)) == !company_excluded(t, cs) by {
                    assert(eval(node_own, t) == (exists|i: int|
                        0 <= i < cs.len() && id_field_has(
                            t,
                            IdField::CompanyIds,
                            #[trigger] cs[i],
                        )));
                    assert(eval(node_blk, t) == (exists|i: int|
                        0 <= i < cs.len() && id_field_has(
                            t,
                            IdField::BlockedCompanies,
                            #[trigger] cs[i],
                        )));
                    if company_excluded(t, cs) {
                        let i = choose|i: int|
                            0 <= i < cs.len() && (t.company_ids@.contains(#[trigger] cs[i])
                                || t.blocked_companies@.contains(cs[i]));
                        if t.company_ids@.contains(cs[i]) {
                            assert(id_field_has(t, IdField::CompanyIds, cs[i]));
                        } else {
                            assert(id_field_has(t, IdField::BlockedCompanies, cs[i]));
                        }
                    }
                    if eval(node_own, t) {
                        let i = choose|i: int|
                            0 <= i < cs.len() && id_field_has(
                                t,
                                IdField::CompanyIds,
                                #[trigger] cs[i],
                            );
                        assert(t.company_ids@.contains(cs[i]) || t.blocked_companies@.contains(
                            cs[i],
                        ));
                    }
                    if eval(node_blk, t) {
                        let i = choose|i: int|
                            0 <= i < cs.len() && id_field_has(
                                t,
                                IdField::BlockedCompanies,
                                #[trigger] cs[i],
                            );
                        assert(t.company_ids@.contains(cs[i]) || t.blocked_companies@.contains(
                            cs[i],
                        ));
                    }
                }
                lemma_none_eval_push(must_not@, node_own);
            }
            must_not.push(QueryNode::TermsId { field: IdField::CompanyIds, values: companies });
            proof {
                lemma_none_eval_push(must_not@, node_blk);
            }
            must_not.push(
                QueryNode::TermsId { field: IdField::BlockedCompanies, values: companies_again },
            );
        }
        let ghost mv = must@;
        let ghost nv = must_not@;
        let r = QueryNode::Bool { must, should: Vec::new(), must_not };
        proof {
            lemma_bool_eval(r);
            assert forall|t: Talent|
                #[trigger] eval(r, t) == matches_params(*params, epoch@, t) by {
                assert(r->Bool_must@ == mv);
                assert(r->Bool_should@.len() == 0);
                assert(r->Bool_must_not@ == nv);
                assert(all_eval(m0, t));
                assert(all_eval(m1, t) == (all_eval(m0, t) && str_filter_ok(
                    t,
                    StrField::WorkRoles,
                    rolesd,
                )));
                assert(all_eval(m2, t) == (all_eval(m1, t) && str_filter_ok(
                    t,
                    StrField::WorkExperience,
                    experienced,
                )));
                assert(all_eval(m3, t) == (all_eval(m2, t) && str_filter_ok(
                    t,
                    StrField::WorkAuthorization,
                    authorizationd,
                )));
                assert(all_eval(m4, t) == (all_eval(m3, t) && str_filter_ok(
                    t,
                    StrField::WorkLocations,
                    locationsd,
                )));
                assert(all_eval(m5, t) == (all_eval(m4, t) && ids_filter_ok(t, allowv)));
                match text_g {
                    Option::Some(q) => {
                        assert(all_eval(m6, t) == (all_eval(m5, t) && eval(q, t)));
                        assert(eval(q, t) == text_constraint_ok(*params, t));
                    },
                    Option::None => {
                        assert(m6 == m5);
                        assert(text_constraint_ok(*params, t));
                    },
                }
                assert(eval(visnode, t) == visible(
                    t,
                    epoch@,
                    id_values(*params, "presented_talents"@),
                ));
                assert(all_eval(mv, t) == (all_eval(m6, t) && eval(visnode, t)));
                assert(none_eval(nv, t) == !company_excluded(
                    t,
                    id_values(*params, "company_id"@),
                ));
            }
        }
        r
    }
}


} // verus!
