//! Result ordering.
//!
//! When no free-text query is present, hits are ordered by a fixed
//! three-key descending chain: batch start, then weight, then the time
//! the entity joined its batch.  When text scoring is active, relevance
//! orders the hits instead.  Either way the engine's document order
//! (the position a document was indexed at) breaks remaining ties, so
//! the ordering is a strict total order and results are deterministic.

use vstd::prelude::*;

use crate::entity::Talent;
use crate::order::Cmp;
use crate::order::lex_lt;
use crate::order::lemma_lex_lt_trans;
use crate::order::lemma_lex_trichotomy;
use crate::order::str_lex_cmp;

verus! {

/// Direction of one sort key.
#[derive(Clone, Copy, Debug, PartialEq, Eq, Structural)]
pub enum SortOrder {
    Asc,
    Desc,
}

/// The fields the explicit sort chain can order by.
#[derive(Clone, Copy, Debug, PartialEq, Eq, Structural)]
pub enum RankField {
    BatchStartsAt,
    Weight,
    AddedToBatchAt,
}

/// One key of the explicit sort chain.
#[derive(Clone, Copy, Debug, PartialEq, Eq, Structural)]
pub struct SortCriterion {
    pub field: RankField,
    pub order: SortOrder,
}

impl Talent {
    /// The fixed explicit ordering, used only when no free-text query
    /// is present: batch start, weight, and batch-join time, all
    /// descending.
    pub fn sorting_criteria() -> (r: Vec<SortCriterion>)
        ensures
            r@ == seq![
                SortCriterion { field: RankField::BatchStartsAt, order: SortOrder::Desc },
                SortCriterion { field: RankField::Weight, order: SortOrder::Desc },
                SortCriterion { field: RankField::AddedToBatchAt, order: SortOrder::Desc },
            ],
    {
        let mut r: Vec<SortCriterion> = Vec::new();
        r.push(SortCriterion { field: RankField::BatchStartsAt, order: SortOrder::Desc });
        r.push(SortCriterion { field: RankField::Weight, order: SortOrder::Desc });
        r.push(SortCriterion { field: RankField::AddedToBatchAt, order: SortOrder::Desc });
        proof {
            assert(r@ =~= seq![
                SortCriterion { field: RankField::BatchStartsAt, order: SortOrder::Desc },
                SortCriterion { field: RankField::Weight, order: SortOrder::Desc },
                SortCriterion { field: RankField::AddedToBatchAt, order: SortOrder::Desc },
            ]);
        }
        r
    }
}

/// One matching document: the position it was indexed at and its
/// relevance (in thousandths, zero when no text query took part).
#[derive(Clone, Copy, Debug, PartialEq, Eq, Structural)]
pub struct Ranked {
    pub score_millis: u32,
    pub pos: usize,
}

/// Every position in `s` refers into `docs`.
pub open spec fn positions_in(s: Seq<Ranked>, docs: Seq<Talent>) -> bool {
    forall|i: int| 0 <= i < s.len() ==> (#[trigger] s[i]).pos < docs.len()
}

/// The strict ordering of results over the document list `docs`.
/// With text scoring (`text_mode`), higher relevance first; otherwise
/// the descending three-key chain of [`Talent::sorting_criteria`].
/// Document order breaks all ties.
pub open spec fn rank_before(text_mode: bool, docs: Seq<Talent>, a: Ranked, b: Ranked) -> bool {
    if text_mode {
        a.score_millis > b.score_millis || (a.score_millis == b.score_millis && a.pos < b.pos)
    } else {
        let ta = docs[a.pos as int];
        let tb = docs[b.pos as int];
        lex_lt(tb.batch_starts_at@, ta.batch_starts_at@) || (ta.batch_starts_at@
            == tb.batch_starts_at@ && (ta.weight > tb.weight || (ta.weight == tb.weight && (lex_lt(
            tb.added_to_batch_at@,
            ta.added_to_batch_at@,
        ) || (ta.added_to_batch_at@ == tb.added_to_batch_at@ && a.pos < b.pos)))))
    }
}

/// `x` inserted into `s` before the first element it ranks ahead of.
pub open spec fn insert_ranked(m: bool, docs: Seq<Talent>, x: Ranked, s: Seq<Ranked>) -> Seq<
    Ranked,
>
    decreases s.len(),
{
    if s.len() == 0 {
        seq![x]
    } else if rank_before(m, docs, x, s[0]) {
        seq![x] + s
    } else {
        seq![s[0]] + insert_ranked(m, docs, x, s.drop_first())
    }
}

/// Insertion sort of `s` under [`rank_before`].
pub open spec fn sort_ranked(m: bool, docs: Seq<Talent>, s: Seq<Ranked>) -> Seq<Ranked>
    decreases s.len(),
{
    if s.len() == 0 {
        Seq::empty()
    } else {
        insert_ranked(m, docs, s[0], sort_ranked(m, docs, s.drop_first()))
    }
}

fn rank_before_exec(text_mode: bool, docs: &Vec<Talent>, a: Ranked, b: Ranked) -> (r: bool)
    requires
        a.pos < docs@.len(),
        b.pos < docs@.len(),
    ensures
        r == rank_before(text_mode, docs@, a, b),
{
    if text_mode {
        a.score_millis > b.score_millis || (a.score_millis == b.score_millis && a.pos < b.pos)
    } else {
        let ta = &docs[a.pos];
        let tb = &docs[b.pos];
        match str_lex_cmp(tb.batch_starts_at.as_str(), ta.batch_starts_at.as_str()) {
            Cmp::Lt => true,
            Cmp::Gt => false,
            Cmp::Eq => {
                if ta.weight > tb.weight {
                    true
                } else if ta.weight < tb.weight {
                    false
                } else {
                    match str_lex_cmp(tb.added_to_batch_at.as_str(), ta.added_to_batch_at.as_str())
                    {
                        Cmp::Lt => true,
                        Cmp::Gt => false,
                        Cmp::Eq => a.pos < b.pos,
                    }
                }
            },
        }
    }
}

fn insert_ranked_exec(m: bool, docs: &Vec<Talent>, x: Ranked, s: Vec<Ranked>) -> (r: Vec<Ranked>)
    requires
        x.pos < docs@.len(),
        positions_in(s@, docs@),
    ensures
        r@ == insert_ranked(m, docs@, x, s@),
        positions_in(r@, docs@),
    decreases s@.len(),
{
    if s.len() == 0 {
        let mut r: Vec<Ranked> = Vec::new();
        r.push(x);
        proof {
            assert(r@ =~= seq![x]);
        }
        r
    } else if rank_before_exec(m, docs, x, s[0]) {
        let mut r: Vec<Ranked> = Vec::new();
        r.push(x);
        let mut tail = s;
        r.append(&mut tail);
        proof {
            assert(r@ =~= seq![x] + s@);
        }
        r
    } else {
        let mut tail = s;
        let head = tail.remove(0);
        proof {
            assert(tail@ =~= s@.drop_first());
        }
        let rest = insert_ranked_exec(m, docs, x, tail);
        let mut r: Vec<Ranked> = Vec::new();
        r.push(head);
        let mut rest_mut = rest;
        r.append(&mut rest_mut);
        proof {
            assert(r@ =~= seq![s@[0]] + insert_ranked(m, docs@, x, s@.drop_first()));
        }
        r
    }
}

/// Sort the ranked documents under [`rank_before`].
pub fn sort_ranked_exec(m: bool, docs: &Vec<Talent>, s: Vec<Ranked>) -> (r: Vec<Ranked>)
    requires
        positions_in(s@, docs@),
    ensures
        r@ == sort_ranked(m, docs@, s@),
        positions_in(r@, docs@),
    decreases s@.len(),
{
    if s.len() == 0 {
        Vec::new()
    } else {
        let mut tail = s;
        let head = tail.remove(0);
        proof {
            assert(tail@ =~= s@.drop_first());
        }
        let sorted_tail = sort_ranked_exec(m, docs, tail);
        insert_ranked_exec(m, docs, head, sorted_tail)
    }
}

/// No later element ranks ahead of an earlier one.
pub open spec fn sorted_ranked(m: bool, docs: Seq<Talent>, s: Seq<Ranked>) -> bool {
    forall|i: int, j: int|
        0 <= i < j < s.len() ==> !rank_before(m, docs, #[trigger] s[j], #[trigger] s[i])
}

/// Nothing ranks ahead of itself.
pub proof fn lemma_rank_before_irrefl(m: bool, docs: Seq<Talent>, a: Ranked)
    ensures
        !rank_before(m, docs, a, a),
{
    if !m {
        let ta = docs[a.pos as int];
        lemma_lex_trichotomy(ta.batch_starts_at@, ta.batch_starts_at@);
        lemma_lex_trichotomy(ta.added_to_batch_at@, ta.added_to_batch_at@);
    }
}

/// The result ordering is transitive.
pub proof fn lemma_rank_before_trans(m: bool, docs: Seq<Talent>, a: Ranked, b: Ranked, c: Ranked)
    requires
        rank_before(m, docs, a, b),
        rank_before(m, docs, b, c),
    ensures
        rank_before(m, docs, a, c),
{
    if !m {
        let ta = docs[a.pos as int];
        let tb = docs[b.pos as int];
        let tc = docs[c.pos as int];
        lemma_lex_trichotomy(ta.batch_starts_at@, tb.batch_starts_at@);
        lemma_lex_trichotomy(tb.batch_starts_at@, tc.batch_starts_at@);
        if lex_lt(tc.batch_starts_at@, tb.batch_starts_at@) && lex_lt(
            tb.batch_starts_at@,
            ta.batch_starts_at@,
        ) {
            lemma_lex_lt_trans(tc.batch_starts_at@, tb.batch_starts_at@, ta.batch_starts_at@);
        }
        if ta.batch_starts_at@ == tb.batch_starts_at@ && tb.batch_starts_at@
            == tc.batch_starts_at@ {
            if lex_lt(tc.added_to_batch_at@, tb.added_to_batch_at@) && lex_lt(
                tb.added_to_batch_at@,
                ta.added_to_batch_at@,
            ) {
                lemma_lex_lt_trans(
                    tc.added_to_batch_at@,
                    tb.added_to_batch_at@,
                    ta.added_to_batch_at@,
                );
            }
        }
    }
}

/// Two results at different document positions are always ordered one
/// way or the other.
pub proof fn lemma_rank_before_total(m: bool, docs: Seq<Talent>, a: Ranked, b: Ranked)
    requires
        a.pos != b.pos,
    ensures
        rank_before(m, docs, a, b) || rank_before(m, docs, b, a),
{
    if !m {
        let ta = docs[a.pos as int];
        let tb = docs[b.pos as int];
        lemma_lex_trichotomy(ta.batch_starts_at@, tb.batch_starts_at@);
        lemma_lex_trichotomy(ta.added_to_batch_at@, tb.added_to_batch_at@);
    }
}

proof fn lemma_insert_ranked_sorted(m: bool, docs: Seq<Talent>, x: Ranked, s: Seq<Ranked>)
    requires
        sorted_ranked(m, docs, s),
    ensures
        sorted_ranked(m, docs, insert_ranked(m, docs, x, s)),
        insert_ranked(m, docs, x, s).to_multiset() == s.to_multiset().insert(x),
        insert_ranked(m, docs, x, s).len() == s.len() + 1,
    decreases s.len(),
{
    broadcast use vstd::seq_lib::group_to_multiset_ensures;

    if s.len() == 0 {
        assert(seq![x].drop_first() =~= Seq::<Ranked>::empty());
        assert(seq![x].to_multiset() == Seq::<Ranked>::empty().to_multiset().insert(x));
    } else if rank_before(m, docs, x, s[0]) {
        let r = seq![x] + s;
        assert forall|i: int, j: int| 0 <= i < j < r.len() implies !rank_before(
            m,
            docs,
            #[trigger] r[j],
            #[trigger] r[i],
        ) by {
            if i == 0 {
                assert(r[j] == s[j - 1]);
                if rank_before(m, docs, r[j], x) {
                    lemma_rank_before_trans(m, docs, s[j - 1], x, s[0]);
                    if j == 1 {
                        lemma_rank_before_irrefl(m, docs, s[0]);
                    } else {
                        assert(!rank_before(m, docs, s[j - 1], s[0]));
                    }
                    assert(false);
                }
            } else {
                assert(r[i] == s[i - 1] && r[j] == s[j - 1]);
            }
        }
        assert(r =~= s.insert(0, x));
        assert(r.to_multiset() == s.to_multiset().insert(x));
    } else {
        assert forall|i: int, j: int|
            0 <= i < j < s.drop_first().len() implies !rank_before(
            m,
            docs,
            #[trigger] s.drop_first()[j],
            #[trigger] s.drop_first()[i],
        ) by {
            assert(s.drop_first()[j] == s[j + 1] && s.drop_first()[i] == s[i + 1]);
        }
        lemma_insert_ranked_sorted(m, docs, x, s.drop_first());
        let rest = insert_ranked(m, docs, x, s.drop_first());
        let r = seq![s[0]] + rest;
        assert forall|i: int, j: int| 0 <= i < j < r.len() implies !rank_before(
            m,
            docs,
            #[trigger] r[j],
            #[trigger] r[i],
        ) by {
            if i == 0 {
                assert(r[j] == rest[j - 1]);
                assert(rest.to_multiset().contains(rest[j - 1]));
                if rest[j - 1] == x {
                    assert(!rank_before(m, docs, x, s[0]));
                } else {
                    assert(s.drop_first().to_multiset().contains(rest[j - 1]));
                    let k = choose|k: int|
                        0 <= k < s.drop_first().len() && s.drop_first()[k] == rest[j - 1];
                    assert(s.drop_first()[k] == s[k + 1]);
                    assert(!rank_before(m, docs, s[k + 1], s[0]));
                }
            } else {
                assert(r[i] == rest[i - 1] && r[j] == rest[j - 1]);
            }
        }
        assert(r =~= rest.insert(0, s[0]));
        assert(r.to_multiset() == rest.to_multiset().insert(s[0]));
        assert(s =~= s.drop_first().insert(0, s[0]));
        assert(s.to_multiset() == s.drop_first().to_multiset().insert(s[0]));
        assert(s.drop_first().to_multiset().insert(x).insert(s[0]) =~= s.drop_first().to_multiset()
            .insert(s[0]).insert(x));
    }
}

/// Sorting yields the same documents, ordered by [`rank_before`].
pub proof fn lemma_sort_ranked_correct(m: bool, docs: Seq<Talent>, s: Seq<Ranked>)
    ensures
        sorted_ranked(m, docs, sort_ranked(m, docs, s)),
        sort_ranked(m, docs, s).to_multiset() == s.to_multiset(),
        sort_ranked(m, docs, s).len() == s.len(),
    decreases s.len(),
{
    broadcast use vstd::seq_lib::group_to_multiset_ensures;

    if s.len() == 0 {
    } else {
        lemma_sort_ranked_correct(m, docs, s.drop_first());
        lemma_insert_ranked_sorted(m, docs, s[0], sort_ranked(m, docs, s.drop_first()));
        assert(s =~= s.drop_first().insert(0, s[0]));
        assert(s.to_multiset() == s.drop_first().to_multiset().insert(s[0]));
    }
}

} // verus!
