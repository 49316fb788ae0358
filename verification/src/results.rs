//! Post-processing of engine hits.
//!
//! A hit carries an entity identifier and, when free-text scoring took
//! part, a relevance score in thousandths.  Scored hits at or below the
//! relevance floor are dropped; unscored (pure-filter) hits are always
//! kept.  Consecutive duplicate identifiers are then removed, keeping
//! first-seen order; the engine's ordering is trusted and never redone.

use vstd::prelude::*;

verus! {

/// Scored hits at or below this relevance (in thousandths) are dropped.
pub const RELEVANCE_FLOOR_MILLIS: u32 = 900;

/// One search hit: an entity identifier with its optional relevance,
/// in thousandths.  The score is present exactly when a free-text
/// query contributed to ranking.
#[derive(Clone, Copy, Debug, PartialEq, Eq, Structural)]
pub struct Hit {
    pub id: u32,
    pub score_millis: Option<u32>,
}

/// A hit survives the relevance floor: unscored, or scored above it.
pub open spec fn hit_kept(h: Hit) -> bool {
    match h.score_millis {
        Option::Some(s) => s > RELEVANCE_FLOOR_MILLIS,
        Option::None => true,
    }
}

/// The identifiers of the hits that survive the relevance floor,
/// in order.
pub open spec fn kept_ids(hits: Seq<Hit>) -> Seq<u32>
    decreases hits.len(),
{
    if hits.len() == 0 {
        Seq::empty()
    } else {
        kept_ids(hits.drop_last()) + if hit_kept(hits.last()) {
            seq![hits.last().id]
        } else {
            Seq::empty()
        }
    }
}

/// `s` with consecutive duplicates removed, keeping first occurrences.
pub open spec fn dedup_adjacent(s: Seq<u32>) -> Seq<u32>
    decreases s.len(),
{
    if s.len() == 0 {
        Seq::empty()
    } else if s.len() == 1 {
        s
    } else {
        dedup_adjacent(s.drop_last()) + if s[s.len() - 1] == s[s.len() - 2] {
            Seq::empty()
        } else {
            seq![s.last()]
        }
    }
}

/// What post-processing makes of a hit list.
pub open spec fn processed(hits: Seq<Hit>) -> Seq<u32> {
    dedup_adjacent(kept_ids(hits))
}

fn hit_kept_exec(h: &Hit) -> (r: bool)
    ensures
        r == hit_kept(*h),
{
    match h.score_millis {
        Option::Some(s) => s > RELEVANCE_FLOOR_MILLIS,
        Option::None => true,
    }
}

/// Map hits to identifiers, dropping scored hits at or below the
/// relevance floor and then removing consecutive duplicates.
pub fn process_hits(hits: &Vec<Hit>) -> (r: Vec<u32>)
    ensures
        r@ == processed(hits@),
{
    let n = hits.len();
    let mut ids: Vec<u32> = Vec::new();
    let mut i: usize = 0;
    while i < n
        invariant
            n == hits@.len(),
            i <= n,
            ids@ == kept_ids(hits@.take(i as int)),
        decreases n - i,
    {
        if hit_kept_exec(&hits[i]) {
            ids.push(hits[i].id);
        }
        i = i + 1;
        proof {
            assert(hits@.take(i as int).drop_last() =~= hits@.take(i as int - 1));
            assert(ids@ =~= kept_ids(hits@.take(i as int)));
        }
    }
    proof {
        assert(hits@.take(n as int) =~= hits@);
    }
    let m = ids.len();
    let mut r: Vec<u32> = Vec::new();
    let mut j: usize = 0;
    while j < m
        invariant
            m == ids@.len(),
            j <= m,
            r@ == dedup_adjacent(ids@.take(j as int)),
        decreases m - j,
    {
        if j == 0 || ids[j] != ids[j - 1] {
            r.push(ids[j]);
        }
        j = j + 1;
        proof {
            assert(ids@.take(j as int).drop_last() =~= ids@.take(j as int - 1));
            assert(r@ =~= dedup_adjacent(ids@.take(j as int)));
        }
    }
    proof {
        assert(ids@.take(m as int) =~= ids@);
    }
    r
}

} // verus!
