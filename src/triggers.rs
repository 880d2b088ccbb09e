//! Entity triggers sourced from other deployments, merged per block.
use vstd::prelude::*;
use crate::store::{
    vids_ascending, BlockNumber, EntityChangeView, EntityWithType, MockSourcableStore,
};

verus! {

/// Which entity changes of a source deployment a subgraph listens to.
#[derive(Debug, Clone)]
pub struct SubgraphFilter {
    pub subgraph: String,
    pub start_block: BlockNumber,
    pub entities: Vec<String>,
}

/// A block and the entity triggers it carries, in version order.
#[derive(Debug, Clone)]
pub struct BlockWithTriggers {
    pub number: BlockNumber,
    pub triggers: Vec<EntityWithType>,
}

pub open spec fn names(v: Seq<String>) -> Seq<Seq<char>> {
    v.map_values(|s: String| s@)
}

/// The changes of `es` whose entity type is listed in `types`, in order.
pub open spec fn keep_types(es: Seq<EntityChangeView>, types: Seq<Seq<char>>) -> Seq<
    EntityChangeView,
>
    decreases es.len(),
{
    if es.len() == 0 {
        es
    } else if types.contains(es.last().entity_type) {
        keep_types(es.drop_last(), types).push(es.last())
    } else {
        keep_types(es.drop_last(), types)
    }
}

/// The blocks of `s` numbered in `[lo, hi]` that carry at least one change
/// of a listed type, each with those changes.
pub open spec fn scan(s: Seq<(int, Seq<EntityChangeView>)>, types: Seq<Seq<char>>, lo: int, hi: int) -> Seq<
    (int, Seq<EntityChangeView>),
>
    decreases s.len(),
{
    if s.len() == 0 {
        s
    } else {
        let rest = scan(s.drop_last(), types, lo, hi);
        let kept = keep_types(s.last().1, types);
        if lo <= s.last().0 && s.last().0 <= hi && kept.len() > 0 {
            rest.push((s.last().0, kept))
        } else {
            rest
        }
    }
}

proof fn lemma_keep_types_ascending(es: Seq<EntityChangeView>, types: Seq<Seq<char>>)
    requires
        vids_ascending(es),
    ensures
        vids_ascending(keep_types(es, types)),
        forall|k: int|
            0 <= k < keep_types(es, types).len() ==> exists|i: int|
                0 <= i < es.len() && es[i] == #[trigger] keep_types(es, types)[k],
    decreases es.len(),
{
    if es.len() > 0 {
        let init = es.drop_last();
        assert(vids_ascending(init));
        lemma_keep_types_ascending(init, types);
        let rest = keep_types(init, types);
        assert forall|k: int| 0 <= k < rest.len() implies rest[k].vid < es.last().vid by {
            let i = choose|i: int| 0 <= i < init.len() && init[i] == rest[k];
            assert(es[i] == init[i]);
        }
        if types.contains(es.last().entity_type) {
            let p = rest.push(es.last());
            assert forall|k: int| 0 <= k < p.len() implies exists|i: int|
                0 <= i < es.len() && es[i] == #[trigger] p[k] by {
                if k < rest.len() {
                    let i = choose|i: int| 0 <= i < init.len() && init[i] == rest[k];
                    assert(es[i] == p[k]);
                } else {
                    assert(es[es.len() - 1] == p[k]);
                }
            }
        } else {
            assert forall|k: int| 0 <= k < rest.len() implies exists|i: int|
                0 <= i < es.len() && es[i] == #[trigger] rest[k] by {
                let i = choose|i: int| 0 <= i < init.len() && init[i] == rest[k];
                assert(es[i] == rest[k]);
            }
        }
    }
}

proof fn lemma_scan_ascending(
    s: Seq<(int, Seq<EntityChangeView>)>,
    types: Seq<Seq<char>>,
    lo: int,
    hi: int,
)
    requires
        forall|i: int| 0 <= i < s.len() ==> vids_ascending(#[trigger] s[i].1),
    ensures
        forall|k: int|
            0 <= k < scan(s, types, lo, hi).len() ==> vids_ascending(
                #[trigger] scan(s, types, lo, hi)[k].1,
            ),
    decreases s.len(),
{
    if s.len() > 0 {
        let init = s.drop_last();
        assert forall|i: int| 0 <= i < init.len() implies vids_ascending(#[trigger] init[i].1) by {
            assert(init[i] == s[i]);
        }
        lemma_scan_ascending(init, types, lo, hi);
        assert(vids_ascending(s[s.len() - 1].1));
        lemma_keep_types_ascending(s.last().1, types);
        let rest = scan(init, types, lo, hi);
        let kept = keep_types(s.last().1, types);
        if lo <= s.last().0 && s.last().0 <= hi && kept.len() > 0 {
            let p = rest.push((s.last().0, kept));
            assert forall|k: int| 0 <= k < p.len() implies vids_ascending(#[trigger] p[k].1) by {
                if k < rest.len() {
                    assert(p[k] == rest[k]);
                }
            }
        }
    }
}

pub open spec fn triggers_view(b: BlockWithTriggers) -> (int, Seq<EntityChangeView>) {
    (b.number as int, b.triggers@.map_values(|e: EntityWithType| e.change()))
}

/// Whether `name` is one of `types`.
fn listed(types: &Vec<String>, name: &String) -> (r: bool)
    ensures
        r == names(types@).contains(name@),
{
    let mut i: usize = 0;
    while i < types.len()
        invariant
            i <= types@.len(),
            forall|k: int| 0 <= k < i ==> types@[k]@ != name@,
        decreases types@.len() - i,
    {
        if types[i] == *name {
            proof {
                assert(names(types@)[i as int] == name@);
            }
            return true;
        }
        i = i + 1;
    }
    proof {
        if names(types@).contains(name@) {
            let k = choose|k: int| 0 <= k < names(types@).len() && names(types@)[k] == name@;
            assert(types@[k]@ == name@);
        }
    }
    false
}

/// Merges the entity triggers of the source deployments into a per-block
/// list.
pub struct TriggersAdapterWrapper {
    /// Each source deployment's hash and store.
    pub sources: Vec<(String, MockSourcableStore)>,
}

/// The store registered for `hash`: the first matching entry.
pub open spec fn source_of(sources: Seq<(String, MockSourcableStore)>, hash: Seq<char>) -> Option<
    MockSourcableStore,
>
    decreases sources.len(),
{
    if sources.len() == 0 {
        None
    } else if sources[0].0@ == hash {
        Some(sources[0].1)
    } else {
        source_of(sources.drop_first(), hash)
    }
}

impl TriggersAdapterWrapper {
    /// Every source store is well ordered.
    pub open spec fn wf(&self) -> bool {
        forall|i: int| 0 <= i < self.sources@.len() ==> (#[trigger] self.sources@[i]).1.wf()
    }

    pub fn new(sources: Vec<(String, MockSourcableStore)>) -> (r: TriggersAdapterWrapper)
        requires
            forall|i: int| 0 <= i < sources@.len() ==> (#[trigger] sources@[i]).1.wf(),
        ensures
            r.sources == sources,
            r.wf(),
    {
        TriggersAdapterWrapper { sources }
    }

    /// The changes of the listed types in `es`, in order.
    fn filter_block(es: &Vec<EntityWithType>, types: &Vec<String>) -> (r: Vec<EntityWithType>)
        ensures
            r@.map_values(|e: EntityWithType| e.change()) == keep_types(
                es@.map_values(|e: EntityWithType| e.change()),
                names(types@),
            ),
    {
        let ghost f = |e: EntityWithType| e.change();
        let mut out: Vec<EntityWithType> = Vec::new();
        let mut j: usize = 0;
        while j < es.len()
            invariant
                j <= es@.len(),
                f == (|e: EntityWithType| e.change()),
                out@.map_values(f) == keep_types(es@.take(j as int).map_values(f), names(types@)),
            decreases es@.len() - j,
        {
            proof {
                assert(es@.take(j + 1).map_values(f).drop_last() =~= es@.take(j as int).map_values(f));
                assert(es@.take(j + 1).map_values(f).last() == es@[j as int].change());
            }
            if listed(types, &es[j].entity_type) {
                let ghost prev = out@;
                let d = es[j].duplicate();
                out.push(d);
                proof {
                    assert(out@.map_values(f) =~= prev.map_values(f).push(d.change()));
                }
            }
            j = j + 1;
        }
        proof {
            assert(es@.take(j as int) =~= es@);
        }
        out
    }

    /// The blocks numbered in `[from, to]`, from the filter's start block on,
    /// that carry changes of the filter's entity types in its source
    /// deployment; an unknown deployment or an empty range gives no block.
    pub fn blocks_with_subgraph_triggers(&self, filter: &SubgraphFilter, from: BlockNumber, to: BlockNumber) -> (r:
        Vec<BlockWithTriggers>)
        requires
            self.wf(),
        ensures
            forall|k: int|
                0 <= k < r@.len() ==> vids_ascending(triggers_view(#[trigger] r@[k]).1),
            source_of(self.sources@, filter.subgraph@) is None ==> r@.len() == 0,
            source_of(self.sources@, filter.subgraph@) is Some ==> r@.map_values(
                |b: BlockWithTriggers| triggers_view(b),
            ) == scan(
                source_of(self.sources@, filter.subgraph@)->Some_0.view(),
                names(filter.entities@),
                if from < filter.start_block { filter.start_block as int } else { from as int },
                to as int,
            ),
    {
        let mut i: usize = 0;
        proof {
            assert(self.sources@.subrange(0, self.sources@.len() as int) =~= self.sources@);
        }
        while i < self.sources.len()
            invariant
                i <= self.sources@.len(),
                source_of(self.sources@, filter.subgraph@) == source_of(
                    self.sources@.subrange(i as int, self.sources@.len() as int),
                    filter.subgraph@,
                ),
                self.wf(),
            decreases self.sources@.len() - i,
        {
            let ghost rest = self.sources@.subrange(i as int, self.sources@.len() as int);
            if self.sources[i].0 == filter.subgraph {
                let lo = if from < filter.start_block {
                    filter.start_block
                } else {
                    from
                };
                let r = Self::scan_store(&self.sources[i].1, &filter.entities, lo, to);
                proof {
                    let st = self.sources@[i as int].1;
                    assert(st.wf());
                    assert forall|j: int| 0 <= j < st.view().len() implies vids_ascending(
                        #[trigger] st.view()[j].1,
                    ) by {}
                    lemma_scan_ascending(st.view(), names(filter.entities@), lo as int, to as int);
                    let g = |b: BlockWithTriggers| triggers_view(b);
                    assert forall|k: int| 0 <= k < r@.len() implies vids_ascending(triggers_view(#[trigger] r@[k]).1) by {
                        assert(r@.map_values(g)[k] == triggers_view(r@[k]));
                    }
                }
                return r;
            }
            proof {
                assert(rest.drop_first() =~= self.sources@.subrange(
                    i + 1,
                    self.sources@.len() as int,
                ));
            }
            i = i + 1;
        }
        Vec::new()
    }

    fn scan_store(store: &MockSourcableStore, types: &Vec<String>, lo: BlockNumber, hi: BlockNumber) -> (r:
        Vec<BlockWithTriggers>)
        ensures
            r@.map_values(|b: BlockWithTriggers| triggers_view(b)) == scan(
                store.view(),
                names(types@),
                lo as int,
                hi as int,
            ),
    {
        let ghost g = |b: BlockWithTriggers| triggers_view(b);
        let mut out: Vec<BlockWithTriggers> = Vec::new();
        let mut i: usize = 0;
        while i < store.entities.len()
            invariant
                i <= store.entities@.len(),
                g == (|b: BlockWithTriggers| triggers_view(b)),
                out@.map_values(g) == scan(store.view().take(i as int), names(types@), lo as int, hi as int),
            decreases store.entities@.len() - i,
        {
            proof {
                assert(store.view().take(i + 1).drop_last() =~= store.view().take(i as int));
            }
            let n = store.entities[i].0;
            if lo <= n && n <= hi {
                let kept = Self::filter_block(&store.entities[i].1, types);
                if kept.len() > 0 {
                    let ghost prev = out@;
                    let b = BlockWithTriggers { number: n, triggers: kept };
                    out.push(b);
                    proof {
                        assert(out@.map_values(g) =~= prev.map_values(g).push(triggers_view(b)));
                    }
                }
            }
            i = i + 1;
        }
        proof {
            assert(store.view().take(i as int) =~= store.view());
        }
        out
    }
}

} // verus!
