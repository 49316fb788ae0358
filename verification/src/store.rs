//! The index of candidate profiles and the search orchestrator.
//!
//! [`TalentIndex`] is the library's reference model of one named index:
//! documents in indexing order, upserted by identifier, under the
//! schema of [`crate::schema`].  [`TalentIndex::search`] resolves the
//! effective parameters, compiles the composite query, executes it
//! against the model and post-processes the hits — the same pipeline an
//! application drives against a remote engine through [`search_plan`]
//! and [`crate::results::process_hits`].  A search against a target
//! this index does not carry degrades to an empty result, as a failed
//! engine call does; it is never an error.

use vstd::prelude::*;

use crate::entity::Talent;
use crate::params::Params;
use crate::params::get_scalar_string;
use crate::params::scalar_string;
use crate::query::QueryNode;
use crate::query::eval;
use crate::query::eval_exec;
use crate::query::keywords_param;
use crate::query::matches_params;
use crate::query::text_score;
use crate::query::text_score_exec;
use crate::query::text_search_requested;
use crate::ranking::Ranked;
use crate::ranking::SortCriterion;
use crate::ranking::positions_in;
use crate::ranking::sort_ranked;
use crate::ranking::sort_ranked_exec;
use crate::results::Hit;
use crate::results::process_hits;
use crate::results::processed;
use crate::schema::IndexSchema;
use crate::schema::is_talent_schema;
use crate::schema::talent_schema;
use crate::order::str_eq;
use crate::text::TextField;
use crate::time::now_rfc3339;

verus! {

/// The fixed cap on how many hits one search ever considers.
pub const MAX_RESULT_WINDOW: usize = 1000;

/// The timestamp a search runs at: an explicit `epoch` parameter if
/// one was given, the current time otherwise.
pub open spec fn resolved_epoch(p: Params, now: Seq<char>) -> Seq<char> {
    match scalar_string(p, "epoch"@) {
        Option::Some(e) => e,
        Option::None => now,
    }
}

/// The index a search addresses: an explicit `index` parameter if one
/// was given, the configured default otherwise.
pub open spec fn resolved_target(p: Params, default_index: Seq<char>) -> Seq<char> {
    match scalar_string(p, "index"@) {
        Option::Some(i) => i,
        Option::None => default_index,
    }
}

/// The relevance (in thousandths) a matching document is ranked by:
/// its text score when a free-text query took part, zero otherwise.
pub open spec fn score_of(p: Params, t: Talent) -> u32 {
    if text_search_requested(p) {
        (text_score(keywords_param(p)->Some_0, t, seq![TextField::Skills, TextField::Summary])
            * 1000) as u32
    } else {
        0
    }
}

/// The matching documents of `docs`, each with its position and score.
pub open spec fn ranked_of(docs: Seq<Talent>, p: Params, epoch: Seq<char>) -> Seq<Ranked>
    decreases docs.len(),
{
    if docs.len() == 0 {
        Seq::empty()
    } else {
        ranked_of(docs.drop_last(), p, epoch) + if matches_params(p, epoch, docs.last()) {
            seq![
                Ranked {
                    score_millis: score_of(p, docs.last()),
                    pos: (docs.len() - 1) as usize,
                },
            ]
        } else {
            Seq::empty()
        }
    }
}

/// The hit a ranked document turns into: its identifier, scored
/// exactly when text ranking is active.
pub open spec fn hits_of(docs: Seq<Talent>, rs: Seq<Ranked>, text: bool) -> Seq<Hit> {
    rs.map_values(
        |r: Ranked|
            Hit {
                id: docs[r.pos as int].id,
                score_millis: if text {
                    Option::Some(r.score_millis)
                } else {
                    Option::None
                },
            },
    )
}

/// `docs` after writing `t`: the first document with the same
/// identifier is overwritten in place, else `t` is appended.
pub open spec fn upsert(docs: Seq<Talent>, t: Talent) -> Seq<Talent>
    decreases docs.len(),
{
    if docs.len() == 0 {
        seq![t]
    } else if docs[0].id == t.id {
        seq![t] + docs.drop_first()
    } else {
        seq![docs[0]] + upsert(docs.drop_first(), t)
    }
}

/// A named index of candidate profiles: the library's reference model
/// of the engine's store.
pub struct TalentIndex {
    pub name: String,
    pub docs: Vec<Talent>,
    pub schema: Option<IndexSchema>,
}

/// What one whole search returns: nothing for an unknown target, else
/// the matching documents ranked, capped at the result window, mapped
/// to hits, thresholded and deduplicated.
pub open spec fn spec_search(
    ix: TalentIndex,
    default_index: Seq<char>,
    p: Params,
    now: Seq<char>,
) -> Seq<u32> {
    if resolved_target(p, default_index) != ix.name@ {
        Seq::empty()
    } else {
        let text = text_search_requested(p);
        let sorted = sort_ranked(text, ix.docs@, ranked_of(ix.docs@, p, resolved_epoch(p, now)));
        let capped = if sorted.len() > MAX_RESULT_WINDOW {
            sorted.take(MAX_RESULT_WINDOW as int)
        } else {
            sorted
        };
        processed(hits_of(ix.docs@, capped, text))
    }
}

proof fn lemma_upsert_found(docs: Seq<Talent>, t: Talent, j: int)
    requires
        0 <= j < docs.len(),
        docs[j].id == t.id,
        forall|m: int| 0 <= m < j ==> (#[trigger] docs[m]).id != t.id,
    ensures
        upsert(docs, t) == docs.update(j, t),
    decreases j,
{
    if j == 0 {
        assert(seq![t] + docs.drop_first() =~= docs.update(0, t));
    } else {
        assert forall|m: int| 0 <= m < j - 1 implies (#[trigger] docs.drop_first()[m]).id
            != t.id by {
            assert(docs.drop_first()[m] == docs[m + 1]);
        }
        lemma_upsert_found(docs.drop_first(), t, j - 1);
        assert(seq![docs[0]] + docs.drop_first().update(j - 1, t) =~= docs.update(j, t));
    }
}

proof fn lemma_upsert_absent(docs: Seq<Talent>, t: Talent)
    requires
        forall|m: int| 0 <= m < docs.len() ==> (#[trigger] docs[m]).id != t.id,
    ensures
        upsert(docs, t) == docs.push(t),
    decreases docs.len(),
{
    if docs.len() == 0 {
        assert(upsert(docs, t) =~= docs.push(t));
    } else {
        assert forall|m: int| 0 <= m < docs.drop_first().len() implies (#[trigger] docs.drop_first(
        )[m]).id != t.id by {
            assert(docs.drop_first()[m] == docs[m + 1]);
        }
        lemma_upsert_absent(docs.drop_first(), t);
        assert(seq![docs[0]] + docs.drop_first().push(t) =~= docs.push(t));
    }
}

impl TalentIndex {
    /// An empty index under the given name, with no schema installed.
    pub fn new(name: String) -> (ix: TalentIndex)
        ensures
            ix.name@ == name@,
            ix.docs@ == Seq::<Talent>::empty(),
            ix.schema is None,
    {
        let ix = TalentIndex { name, docs: Vec::new(), schema: Option::None };
        proof {
            assert(ix.docs@ =~= Seq::<Talent>::empty());
        }
        ix
    }

    /// Destroy and recreate the index: every document is gone and the
    /// entity schema is installed fresh.
    pub fn reset_index(&mut self)
        ensures
            final(self).name@ == old(self).name@,
            final(self).docs@ == Seq::<Talent>::empty(),
            final(self).schema matches Option::Some(s) && is_talent_schema(s),
    {
        self.docs = Vec::new();
        self.schema = Option::Some(talent_schema());
        proof {
            assert(self.docs@ =~= Seq::<Talent>::empty());
        }
    }

    /// Write one document, keyed by its identifier: an existing
    /// document with the same identifier is overwritten in place,
    /// otherwise the document is appended.
    pub fn index(&mut self, t: Talent)
        ensures
            final(self).name@ == old(self).name@,
            final(self).schema == old(self).schema,
            final(self).docs@ == upsert(old(self).docs@, t),
    {
        let n = self.docs.len();
        let mut i: usize = 0;
        while i < n
            invariant
                n == self.docs@.len(),
                i <= n,
                self.docs@ == old(self).docs@,
                self.name@ == old(self).name@,
                self.schema == old(self).schema,
                forall|m: int| 0 <= m < i ==> (#[trigger] self.docs@[m]).id != t.id,
            decreases n - i,
        {
            if self.docs[i].id == t.id {
                proof {
                    lemma_upsert_found(self.docs@, t, i as int);
                }
                self.docs.remove(i);
                self.docs.insert(i, t);
                proof {
                    assert(self.docs@ =~= old(self).docs@.update(i as int, t));
                }
                return ;
            }
            i = i + 1;
        }
        proof {
            lemma_upsert_absent(self.docs@, t);
        }
        self.docs.push(t);
    }

    /// Run one search at the given reference time: resolve the target
    /// and epoch, compile the composite query, rank the matching
    /// documents, cap them at the result window, and post-process the
    /// hits.  An unknown target yields the empty result.
    pub fn search_at(&self, default_index: &str, params: &Params, now: &str) -> (ids: Vec<u32>)
        ensures
            ids@ == spec_search(*self, default_index@, *params, now@),
    {
        let target_ok = match get_scalar_string(params, "index") {
            Option::Some(ix) => str_eq(ix.as_str(), self.name.as_str()),
            Option::None => str_eq(default_index, self.name.as_str()),
        };
        if !target_ok {
            let r: Vec<u32> = Vec::new();
            proof {
                assert(r@ =~= spec_search(*self, default_index@, *params, now@));
            }
            return r;
        }
        let epoch: String = match get_scalar_string(params, "epoch") {
            Option::Some(e) => e,
            Option::None => now.to_owned(),
        };
        proof {
            assert(epoch@ == resolved_epoch(*params, now@));
        }
        let text = match get_scalar_string(params, "keywords") {
            Option::Some(k) => !k.as_str().is_empty(),
            Option::None => false,
        };
        proof {
            assert(text == text_search_requested(*params));
        }
        let kw = get_scalar_string(params, "keywords");
        let mut fields: Vec<TextField> = Vec::new();
        fields.push(TextField::Skills);
        fields.push(TextField::Summary);
        proof {
            assert(fields@ =~= seq![TextField::Skills, TextField::Summary]);
        }
        let query = Talent::search_filters(params, epoch.as_str());
        let n = self.docs.len();
        let mut ranked: Vec<Ranked> = Vec::new();
        let mut i: usize = 0;
        while i < n
            invariant
                n == self.docs@.len(),
                i <= n,
                forall|t: Talent| #[trigger]
                    eval(query, t) == matches_params(*params, epoch@, t),
                epoch@ == resolved_epoch(*params, now@),
                text == text_search_requested(*params),
                fields@ == seq![TextField::Skills, TextField::Summary],
                kw is Some <==> scalar_string(*params, "keywords"@) is Some,
                kw is Some ==> kw->Some_0@ == scalar_string(*params, "keywords"@)->Some_0,
                ranked@ == ranked_of(self.docs@.take(i as int), *params, epoch@),
                positions_in(ranked@, self.docs@),
            decreases n - i,
        {
            if eval_exec(&query, &self.docs[i]) {
                let score: u32 = if text {
                    match &kw {
                        Option::Some(k) => {
                            let s = text_score_exec(k.as_str(), &self.docs[i], &fields);
                            1000 * s
                        },
                        Option::None => 0,
                    }
                } else {
                    0
                };
                proof {
                    assert(score == score_of(*params, self.docs@[i as int]));
                }
                ranked.push(Ranked { score_millis: score, pos: i });
            }
            i = i + 1;
            proof {
                assert(self.docs@.take(i as int).drop_last() =~= self.docs@.take(i as int - 1));
                assert(self.docs@.take(i as int).last() == self.docs@[i as int - 1]);
                assert(ranked@ =~= ranked_of(self.docs@.take(i as int), *params, epoch@));
            }
        }
        proof {
            assert(self.docs@.take(n as int) =~= self.docs@);
        }
        let mut sorted = sort_ranked_exec(text, &self.docs, ranked);
        if sorted.len() > MAX_RESULT_WINDOW {
            sorted.truncate(MAX_RESULT_WINDOW);
            proof {
                assert(positions_in(sorted@, self.docs@));
            }
        }
        let m = sorted.len();
        let mut hits: Vec<Hit> = Vec::new();
        let mut j: usize = 0;
        while j < m
            invariant
                m == sorted@.len(),
                j <= m,
                positions_in(sorted@, self.docs@),
                hits@ == hits_of(self.docs@, sorted@.take(j as int), text),
            decreases m - j,
        {
            let r = sorted[j];
            let id = self.docs[r.pos].id;
            hits.push(
                Hit {
                    id,
                    score_millis: if text {
                        Option::Some(r.score_millis)
                    } else {
                        Option::None
                    },
                },
            );
            j = j + 1;
            proof {
                assert(hits@ =~= hits_of(self.docs@, sorted@.take(j as int), text));
            }
        }
        proof {
            assert(sorted@.take(m as int) =~= sorted@);
        }
        process_hits(&hits)
    }

    /// Run one search at the current time.  The clock's value cannot
    /// be pinned down, so the contract promises the result of
    /// [`spec_search`] at whatever timestamp the call read.
    pub fn search(&self, default_index: &str, params: &Params) -> (ids: Vec<u32>)
        ensures
            exists|now: Seq<char>| ids@ == spec_search(*self, default_index@, *params, now),
    {
        let now = now_rfc3339();
        let ids = self.search_at(default_index, params, now.as_str());
        proof {
            assert(ids@ == spec_search(*self, default_index@, *params, now@));
        }
        ids
    }
}

/// Everything an application needs to run one search against a remote
/// engine: the resolved target, the compiled query, the explicit sort
/// chain when no text query is present, and the result-window cap.
pub struct SearchPlan {
    pub target: String,
    pub query: QueryNode,
    pub sort: Option<Vec<SortCriterion>>,
    pub size: usize,
}

/// Resolve one request into a [`SearchPlan`] at the given reference
/// time.  The explicit sort is present exactly when no free-text
/// query is, since relevance ranking and field sorting are mutually
/// exclusive.
pub fn search_plan(params: &Params, default_index: &str, now: &str) -> (plan: SearchPlan)
    ensures
        plan.target@ == resolved_target(*params, default_index@),
        forall|t: Talent| #[trigger]
            eval(plan.query, t) == matches_params(
                *params,
                resolved_epoch(*params, now@),
                t,
            ),
        (plan.sort is Some) == !text_search_requested(*params),
        plan.sort matches Option::Some(s) ==> s@ == seq![
            SortCriterion {
                field: crate::ranking::RankField::BatchStartsAt,
                order: crate::ranking::SortOrder::Desc,
            },
            SortCriterion {
                field: crate::ranking::RankField::Weight,
                order: crate::ranking::SortOrder::Desc,
            },
            SortCriterion {
                field: crate::ranking::RankField::AddedToBatchAt,
                order: crate::ranking::SortOrder::Desc,
            },
        ],
        plan.size == MAX_RESULT_WINDOW,
{
    let target: String = match get_scalar_string(params, "index") {
        Option::Some(ix) => ix,
        Option::None => default_index.to_owned(),
    };
    let epoch: String = match get_scalar_string(params, "epoch") {
        Option::Some(e) => e,
        Option::None => now.to_owned(),
    };
    let text = match get_scalar_string(params, "keywords") {
        Option::Some(k) => !k.as_str().is_empty(),
        Option::None => false,
    };
    let query = Talent::search_filters(params, epoch.as_str());
    let sort: Option<Vec<SortCriterion>> = if text {
        Option::None
    } else {
        Option::Some(Talent::sorting_criteria())
    };
    SearchPlan { target, query, sort, size: MAX_RESULT_WINDOW }
}

} // verus!
