//! The library's governing laws, stated and proved once for all inputs.
//!
//! Each law here is a property of the query semantics or of the search
//! pipeline as a whole; the scenario tests exercise the same facts on
//! concrete fixtures.

use vstd::prelude::*;

use crate::entity::Talent;
use crate::params::Params;
use crate::params::id_values;
use crate::params::string_values;
use crate::query::StrField;
use crate::query::company_excluded;
use crate::query::keywords_param;
use crate::query::matches_params;
use crate::query::str_field_has;
use crate::query::str_filter_ok;
use crate::query::text_constraint_ok;
use crate::query::text_matches;
use crate::query::text_score;
use crate::query::text_search_requested;
use crate::query::visible;
use crate::order::lex_le;
use crate::results::Hit;
use crate::results::RELEVANCE_FLOOR_MILLIS;
use crate::results::hit_kept;
use crate::results::kept_ids;
use crate::ranking::sort_ranked;
use crate::results::dedup_adjacent;
use crate::results::processed;
use crate::store::MAX_RESULT_WINDOW;
use crate::store::TalentIndex;
use crate::store::hits_of;
use crate::store::ranked_of;
use crate::store::resolved_epoch;
use crate::store::resolved_target;
use crate::store::spec_search;
use crate::text::lower_seq;
use crate::text::pair_count;
use crate::text::token_hits;
use crate::text::token_match;
use crate::query::query_tokens;
use crate::query::fields_tokens;
use crate::text::TextField;

verus! {

/// With every filter category empty and no company given, a search
/// constrains nothing beyond visibility: exactly the entities that are
/// accepted and inside their batch window match.  (Their order is the
/// default sort chain: see [`crate::ranking::lemma_sort_ranked_correct`].)
pub proof fn lemma_no_parameters_no_constraint(p: Params, epoch: Seq<char>, t: Talent)
    requires
        string_values(p, "work_roles"@).len() == 0,
        string_values(p, "work_experience"@).len() == 0,
        string_values(p, "work_authorization"@).len() == 0,
        string_values(p, "work_locations"@).len() == 0,
        id_values(p, "ids"@).len() == 0,
        id_values(p, "presented_talents"@).len() == 0,
        id_values(p, "company_id"@).len() == 0,
        !text_search_requested(p),
    ensures
        matches_params(p, epoch, t) == (t.accepted && lex_le(t.batch_starts_at@, epoch) && lex_le(
            epoch,
            t.batch_ends_at@,
        )),
{
}

/// Visibility: an unaccepted entity, or one outside its batch window,
/// is visible exactly when its identifier is on the override list.
pub proof fn lemma_visibility_override(t: Talent, epoch: Seq<char>, presented: Seq<u32>)
    ensures
        !t.accepted ==> (visible(t, epoch, presented) == presented.contains(t.id)),
        !(lex_le(t.batch_starts_at@, epoch) && lex_le(epoch, t.batch_ends_at@)) ==> (visible(
            t,
            epoch,
            presented,
        ) == presented.contains(t.id)),
{
}

/// Within one category the supplied values are ORed: two role values
/// select the union.  Across categories the filters are ANDed: a
/// matching entity satisfies the role filter and the location filter.
pub proof fn lemma_or_within_and_across(
    p: Params,
    epoch: Seq<char>,
    t: Talent,
    v1: Seq<char>,
    v2: Seq<char>,
)
    ensures
        str_filter_ok(t, StrField::WorkRoles, seq![v1, v2]) == (str_field_has(
            t,
            StrField::WorkRoles,
            v1,
        ) || str_field_has(t, StrField::WorkRoles, v2)),
        matches_params(p, epoch, t) ==> str_filter_ok(
            t,
            StrField::WorkRoles,
            string_values(p, "work_roles"@),
        ) && str_filter_ok(t, StrField::WorkLocations, string_values(p, "work_locations"@)),
{
    let vs = seq![v1, v2];
    if str_field_has(t, StrField::WorkRoles, v1) {
        assert(str_field_has(t, StrField::WorkRoles, vs[0]));
    } else if str_field_has(t, StrField::WorkRoles, v2) {
        assert(str_field_has(t, StrField::WorkRoles, vs[1]));
    }
    if str_filter_ok(t, StrField::WorkRoles, vs) {
        let i = choose|i: int| 0 <= i < vs.len() && str_field_has(t, StrField::WorkRoles, vs[i]);
        assert(i == 0 || i == 1);
    }
}

/// Negative filter: an entity whose owning-company or blocked-company
/// list holds a given company identifier never matches, whatever else
/// the request asks for.
pub proof fn lemma_company_exclusion(p: Params, epoch: Seq<char>, t: Talent)
    ensures
        company_excluded(t, id_values(p, "company_id"@)) ==> !matches_params(p, epoch, t),
{
}

/// An absent keyword string and an empty one constrain nothing: the
/// free-text conjunct of the request is vacuously satisfied, so the
/// whole request means the same with either.
pub proof fn lemma_empty_keywords_no_constraint(p: Params, t: Talent)
    requires
        keywords_param(p) is None || keywords_param(p)->Some_0.len() == 0,
    ensures
        text_constraint_ok(p, t),
{
}

/// Free-text matching is case-insensitive: analysis lower-cases both
/// sides first, so two keyword strings that agree up to ASCII case —
/// that is, whose lower-casings agree — score every entity alike.
pub proof fn lemma_text_match_case_insensitive(
    q1: Seq<char>,
    q2: Seq<char>,
    t: Talent,
    fs: Seq<TextField>,
)
    requires
        lower_seq(q1) == lower_seq(q2),
    ensures
        text_score(q1, t, fs) == text_score(q2, t, fs),
{
}

proof fn lemma_token_hits_positive(qt: Seq<char>, ds: Seq<Seq<char>>)
    ensures
        (token_hits(qt, ds) > 0) == (exists|j: int|
            0 <= j < ds.len() && token_match(qt, #[trigger] ds[j])),
    decreases ds.len(),
{
    if ds.len() == 0 {
    } else {
        lemma_token_hits_positive(qt, ds.drop_last());
        if token_hits(qt, ds.drop_last()) > 0 {
            let j = choose|j: int|
                0 <= j < ds.drop_last().len() && token_match(qt, #[trigger] ds.drop_last()[j]);
            assert(token_match(qt, ds[j]));
        }
        if token_match(qt, ds.last()) {
            assert(token_match(qt, ds[ds.len() - 1]));
        }
        if exists|j: int| 0 <= j < ds.len() && token_match(qt, #[trigger] ds[j]) {
            let j = choose|j: int| 0 <= j < ds.len() && token_match(qt, #[trigger] ds[j]);
            if j < ds.len() - 1 {
                assert(token_match(qt, ds.drop_last()[j]));
            }
        }
    }
}

/// The indexed tokens a free-text query is matched against: those of
/// the two analyzed fields.
pub open spec fn standard_field_tokens(t: Talent) -> Seq<Seq<char>> {
    fields_tokens(t, seq![TextField::Skills, TextField::Summary])
}

/// Free-text matching reaches partial tokens: an entity matches a
/// keyword string exactly when some search token of it (a whole word
/// or a word-delimited run) is an n-gram — a substring in the indexed
/// length range — of some indexed token of the entity's analyzed
/// fields.  So "html" matches an entity whose skills hold "HTML5".
pub proof fn lemma_partial_token_match(q: Seq<char>, t: Talent)
    ensures
        text_matches(q, t) == (exists|i: int, j: int|
            0 <= i < query_tokens(q).len() && 0 <= j < standard_field_tokens(t).len()
                && token_match(
                #[trigger] query_tokens(q)[i],
                #[trigger] standard_field_tokens(t)[j],
            )),
{
    let qs = query_tokens(q);
    let ds = standard_field_tokens(t);
    lemma_pair_count_positive(qs, ds);
}

proof fn lemma_pair_count_positive(qs: Seq<Seq<char>>, ds: Seq<Seq<char>>)
    ensures
        (pair_count(qs, ds) > 0) == (exists|i: int, j: int|
            0 <= i < qs.len() && 0 <= j < ds.len() && token_match(
                #[trigger] qs[i],
                #[trigger] ds[j],
            )),
    decreases qs.len(),
{
    if qs.len() == 0 {
    } else {
        lemma_pair_count_positive(qs.drop_last(), ds);
        lemma_token_hits_positive(qs.last(), ds);
        if pair_count(qs.drop_last(), ds) > 0 {
            let (i, j) = choose|i: int, j: int|
                0 <= i < qs.drop_last().len() && 0 <= j < ds.len() && token_match(
                    #[trigger] qs.drop_last()[i],
                    #[trigger] ds[j],
                );
            assert(token_match(qs[i], ds[j]));
        }
        if token_hits(qs.last(), ds) > 0 {
            let j = choose|j: int| 0 <= j < ds.len() && token_match(qs.last(), #[trigger] ds[j]);
            assert(token_match(qs[qs.len() - 1], ds[j]));
        }
        if exists|i: int, j: int|
            0 <= i < qs.len() && 0 <= j < ds.len() && token_match(
                #[trigger] qs[i],
                #[trigger] ds[j],
            ) {
            let (i, j) = choose|i: int, j: int|
                0 <= i < qs.len() && 0 <= j < ds.len() && token_match(
                    #[trigger] qs[i],
                    #[trigger] ds[j],
                );
            if i < qs.len() - 1 {
                assert(token_match(qs.drop_last()[i], ds[j]));
            }
        }
    }
}

/// The relevance floor: a scored hit survives post-processing's first
/// pass exactly when its score exceeds the floor; an unscored hit
/// always does.  Consequently a hit list of one entity keeps or drops
/// it accordingly.
pub proof fn lemma_relevance_floor(h: Hit)
    ensures
        h.score_millis matches Option::Some(s) ==> hit_kept(h) == (s > RELEVANCE_FLOOR_MILLIS),
        h.score_millis is None ==> hit_kept(h),
        kept_ids(seq![h]) == if hit_kept(h) {
            seq![h.id]
        } else {
            Seq::<u32>::empty()
        },
{
    let s = seq![h];
    assert(s.len() == 1);
    assert(s.last() == h);
    assert(s.drop_last() =~= Seq::<Hit>::empty());
    assert(kept_ids(Seq::<Hit>::empty()) == Seq::<u32>::empty());
    assert(kept_ids(s) == kept_ids(s.drop_last()) + if hit_kept(h) {
        seq![h.id]
    } else {
        Seq::<u32>::empty()
    });
    if hit_kept(h) {
        assert(kept_ids(s) =~= seq![h.id]);
    } else {
        assert(kept_ids(s) =~= Seq::<u32>::empty());
    }
}

/// Search is a function of the index's name and document sequence
/// alone.  Resetting the schema empties the store, and every write
/// upserts by identifier, so re-running a reset followed by the same
/// writes rebuilds the same document sequence — and therefore every
/// subsequent search returns identical results.
pub proof fn lemma_reindex_idempotent(
    a: TalentIndex,
    b: TalentIndex,
    default_index: Seq<char>,
    p: Params,
    now: Seq<char>,
)
    requires
        a.name@ == b.name@,
        a.docs@ == b.docs@,
    ensures
        spec_search(a, default_index, p, now) == spec_search(b, default_index, p, now),
{
}

proof fn lemma_ranked_of_has(docs: Seq<Talent>, p: Params, e: Seq<char>, i: int)
    requires
        docs.len() <= usize::MAX,
        0 <= i < docs.len(),
        matches_params(p, e, docs[i]),
    ensures
        exists|k: int|
            0 <= k < ranked_of(docs, p, e).len() && (#[trigger] ranked_of(docs, p, e)[k]).pos
                == i,
    decreases docs.len(),
{
    let rs = ranked_of(docs, p, e);
    if i == docs.len() - 1 {
        assert(rs[rs.len() - 1].pos == i);
    } else {
        assert(docs.drop_last()[i] == docs[i]);
        lemma_ranked_of_has(docs.drop_last(), p, e, i);
        let k = choose|k: int|
            0 <= k < ranked_of(docs.drop_last(), p, e).len() && (#[trigger] ranked_of(
                docs.drop_last(),
                p,
                e,
            )[k]).pos == i;
        assert(rs[k].pos == i);
    }
}

proof fn lemma_kept_ids_has(hits: Seq<Hit>, j: int)
    requires
        0 <= j < hits.len(),
        hit_kept(hits[j]),
    ensures
        kept_ids(hits).contains(hits[j].id),
    decreases hits.len(),
{
    if j == hits.len() - 1 {
        let ks = kept_ids(hits);
        assert(ks[ks.len() - 1] == hits[j].id);
    } else {
        assert(hits.drop_last()[j] == hits[j]);
        lemma_kept_ids_has(hits.drop_last(), j);
        let prev = kept_ids(hits.drop_last());
        let k = choose|k: int| 0 <= k < prev.len() && prev[k] == hits[j].id;
        assert(kept_ids(hits)[k] == hits[j].id);
    }
}

proof fn lemma_dedup_keeps_members(s: Seq<u32>, x: u32)
    requires
        s.contains(x),
    ensures
        dedup_adjacent(s).contains(x),
    decreases s.len(),
{
    if s.len() == 1 {
        assert(dedup_adjacent(s)[0] == x);
    } else {
        let d = dedup_adjacent(s);
        let prev = dedup_adjacent(s.drop_last());
        let j = choose|j: int| 0 <= j < s.len() && s[j] == x;
        if j < s.len() - 1 || s[s.len() - 1] == s[s.len() - 2] {
            if j == s.len() - 1 {
                assert(s.drop_last()[s.len() - 2] == x);
            } else {
                assert(s.drop_last()[j] == x);
            }
            lemma_dedup_keeps_members(s.drop_last(), x);
            let k = choose|k: int| 0 <= k < prev.len() && prev[k] == x;
            assert(d[k] == x);
        } else {
            assert(d[d.len() - 1] == x);
        }
    }
}

/// Search is complete: with no free-text query and no more matches
/// than the result window holds, every document that satisfies the
/// request — in particular every visible one, when no filters are
/// given — has its identifier in the result.
pub proof fn lemma_search_returns_all_matches(
    ix: TalentIndex,
    default_index: Seq<char>,
    p: Params,
    now: Seq<char>,
    i: int,
)
    requires
        ix.docs@.len() <= usize::MAX,
        resolved_target(p, default_index) == ix.name@,
        !text_search_requested(p),
        ranked_of(ix.docs@, p, resolved_epoch(p, now)).len() <= MAX_RESULT_WINDOW,
        0 <= i < ix.docs@.len(),
        matches_params(p, resolved_epoch(p, now), ix.docs@[i]),
    ensures
        spec_search(ix, default_index, p, now).contains(ix.docs@[i].id),
{
    broadcast use vstd::seq_lib::group_to_multiset_ensures;

    let docs = ix.docs@;
    let e = resolved_epoch(p, now);
    let rs = ranked_of(docs, p, e);
    let sorted = sort_ranked(false, docs, rs);
    lemma_ranked_of_has(docs, p, e, i);
    let k = choose|k: int| 0 <= k < rs.len() && (#[trigger] rs[k]).pos == i;
    crate::ranking::lemma_sort_ranked_correct(false, docs, rs);
    assert(rs.to_multiset().contains(rs[k]));
    assert(sorted.to_multiset().contains(rs[k]));
    assert(sorted.contains(rs[k]));
    let j = choose|j: int| 0 <= j < sorted.len() && sorted[j] == rs[k];
    let hits = hits_of(docs, sorted, false);
    assert(hits[j].id == docs[i].id);
    assert(hit_kept(hits[j]));
    lemma_kept_ids_has(hits, j);
    lemma_dedup_keeps_members(kept_ids(hits), docs[i].id);
    assert(spec_search(ix, default_index, p, now) == processed(hits));
}


} // verus!
