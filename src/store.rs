//! A read-only view over a peer deployment's entity history.
use vstd::prelude::*;

verus! {

pub type BlockNumber = i32;

/// What happened to an entity at a block.
#[derive(Debug, Clone, Copy, PartialEq, Eq, Structural)]
pub enum EntitySubgraphOperation {
    Create,
    Modify,
    Delete,
}

/// A value of an entity field.
#[derive(Debug, Clone, PartialEq, Eq)]
pub enum Value {
    String(String),
    Int(i32),
    BigInt(String),
    Bytes(Vec<u8>),
    Bool(bool),
    Null,
}

/// One entity change of a source deployment.
#[derive(Debug, Clone)]
pub struct EntityWithType {
    pub entity_type: String,
    pub entity: Vec<(String, Value)>,
    pub entity_op: EntitySubgraphOperation,
    pub vid: i64,
}

/// The mathematical value of a field.
pub enum ValueView {
    String(Seq<char>),
    Int(i32),
    BigInt(Seq<char>),
    Bytes(Seq<u8>),
    Bool(bool),
    Null,
}

fn copy_bytes(b: &Vec<u8>) -> (r: Vec<u8>)
    ensures
        r@ == b@,
{
    let mut out: Vec<u8> = Vec::new();
    let mut i: usize = 0;
    while i < b.len()
        invariant
            i <= b@.len(),
            out@ =~= b@.take(i as int),
        decreases b@.len() - i,
    {
        out.push(b[i]);
        i = i + 1;
    }
    proof {
        assert(b@.take(i as int) =~= b@);
    }
    out
}

impl Value {
    pub open spec fn value_view(&self) -> ValueView {
        match self {
            Value::String(s) => ValueView::String(s@),
            Value::Int(i) => ValueView::Int(*i),
            Value::BigInt(s) => ValueView::BigInt(s@),
            Value::Bytes(b) => ValueView::Bytes(b@),
            Value::Bool(b) => ValueView::Bool(*b),
            Value::Null => ValueView::Null,
        }
    }

    pub fn duplicate(&self) -> (r: Value)
        ensures
            r.value_view() == self.value_view(),
    {
        match self {
            Value::String(s) => Value::String(s.clone()),
            Value::Int(i) => Value::Int(*i),
            Value::BigInt(s) => Value::BigInt(s.clone()),
            Value::Bytes(b) => Value::Bytes(copy_bytes(b)),
            Value::Bool(b) => Value::Bool(*b),
            Value::Null => Value::Null,
        }
    }
}

pub open spec fn field_view(f: (String, Value)) -> (Seq<char>, ValueView) {
    (f.0@, f.1.value_view())
}

/// What the contracts follow of an entity change: its type, its fields in
/// order, its operation and its version id.
pub struct EntityChangeView {
    pub entity_type: Seq<char>,
    pub fields: Seq<(Seq<char>, ValueView)>,
    pub entity_op: EntitySubgraphOperation,
    pub vid: i64,
}

impl EntityWithType {
    pub open spec fn change(&self) -> EntityChangeView {
        EntityChangeView {
            entity_type: self.entity_type@,
            fields: self.entity@.map_values(|f: (String, Value)| field_view(f)),
            entity_op: self.entity_op,
            vid: self.vid,
        }
    }

    pub fn duplicate(&self) -> (r: EntityWithType)
        ensures
            r.change() == self.change(),
    {
        let ghost f = |x: (String, Value)| field_view(x);
        let mut fields: Vec<(String, Value)> = Vec::new();
        let mut i: usize = 0;
        while i < self.entity.len()
            invariant
                i <= self.entity@.len(),
                f == (|x: (String, Value)| field_view(x)),
                fields@.map_values(f) =~= self.entity@.take(i as int).map_values(f),
            decreases self.entity@.len() - i,
        {
            let ghost prev = fields@;
            let name = self.entity[i].0.clone();
            let value = self.entity[i].1.duplicate();
            fields.push((name, value));
            proof {
                assert(fields@.map_values(f) =~= prev.map_values(f).push(f(self.entity@[i as int])));
                assert(self.entity@.take(i + 1) =~= self.entity@.take(i as int).push(
                    self.entity@[i as int],
                ));
                assert(self.entity@.take(i + 1).map_values(f) =~= self.entity@.take(
                    i as int,
                ).map_values(f).push(f(self.entity@[i as int])));
            }
            i = i + 1;
        }
        proof {
            assert(self.entity@.take(i as int) =~= self.entity@);
        }
        EntityWithType {
            entity_type: self.entity_type.clone(),
            entity: fields,
            entity_op: self.entity_op,
            vid: self.vid,
        }
    }
}

/// The changes of one block, as the contracts see them.
pub open spec fn block_view(b: &(BlockNumber, Vec<EntityWithType>)) -> (int, Seq<EntityChangeView>) {
    (b.0 as int, b.1@.map_values(|e: EntityWithType| e.change()))
}

/// The blocks of `s` whose number lies in `[from, to)`, in order.
pub open spec fn restrict(s: Seq<(int, Seq<EntityChangeView>)>, from: int, to: int) -> Seq<
    (int, Seq<EntityChangeView>),
>
    decreases s.len(),
{
    if s.len() == 0 {
        s
    } else {
        let rest = restrict(s.drop_last(), from, to);
        if from <= s.last().0 && s.last().0 < to {
            rest.push(s.last())
        } else {
            rest
        }
    }
}

/// Restricting to a range keeps the entries in a sub-range exactly as a
/// direct restriction to the sub-range does: the answer on `[from1, to1)`
/// is the answer on any enclosing `[from2, to2)` cut down to `[from1, to1)`.
pub proof fn lemma_get_range_monotone(
    s: Seq<(int, Seq<EntityChangeView>)>,
    from1: int,
    to1: int,
    from2: int,
    to2: int,
)
    requires
        from2 <= from1,
        to1 <= to2,
    ensures
        restrict(restrict(s, from2, to2), from1, to1) == restrict(s, from1, to1),
    decreases s.len(),
{
    if s.len() > 0 {
        lemma_get_range_monotone(s.drop_last(), from1, to1, from2, to2);
        let rest2 = restrict(s.drop_last(), from2, to2);
        if from2 <= s.last().0 && s.last().0 < to2 {
            let p = rest2.push(s.last());
            assert(p.drop_last() == rest2);
            assert(p.last() == s.last());
        }
    }
}

/// Version ids strictly ascending.
pub open spec fn vids_ascending(es: Seq<EntityChangeView>) -> bool {
    forall|i: int, j: int| 0 <= i < j < es.len() ==> #[trigger] es[i].vid < #[trigger] es[j].vid
}

/// Block numbers strictly increasing, and the changes of each block in
/// ascending version order.
pub open spec fn well_ordered(s: Seq<(int, Seq<EntityChangeView>)>) -> bool {
    &&& forall|i: int, j: int| 0 <= i < j < s.len() ==> #[trigger] s[i].0 < #[trigger] s[j].0
    &&& forall|i: int| 0 <= i < s.len() ==> vids_ascending(#[trigger] s[i].1)
}

pub open spec fn history_view(v: Seq<(BlockNumber, Vec<EntityWithType>)>) -> Seq<(int, Seq<EntityChangeView>)> {
    v.map_values(|b: (BlockNumber, Vec<EntityWithType>)| block_view(&b))
}

/// A block pointer: a hash and a block number.
#[derive(Debug, Clone, PartialEq, Eq)]
pub struct BlockPtr {
    pub hash: Vec<u8>,
    pub number: BlockNumber,
}

/// An in-memory sourceable store: entity changes keyed by block number in
/// strictly increasing order, and the block the source has indexed up to.
pub struct MockSourcableStore {
    pub entities: Vec<(BlockNumber, Vec<EntityWithType>)>,
    pub block_ptr: Option<BlockPtr>,
}

impl MockSourcableStore {
    pub open spec fn view(&self) -> Seq<(int, Seq<EntityChangeView>)> {
        history_view(self.entities@)
    }

    pub open spec fn wf(&self) -> bool {
        well_ordered(self.view())
    }

    pub fn new(entities: Vec<(BlockNumber, Vec<EntityWithType>)>, block_ptr: Option<BlockPtr>) -> (r:
        MockSourcableStore)
        requires
            well_ordered(history_view(entities@)),
        ensures
            r.wf(),
            r.entities == entities,
            r.block_ptr == block_ptr,
    {
        MockSourcableStore { entities, block_ptr }
    }

    /// The blocks with numbers in `[from, to)` and their changes, in block
    /// order.
    pub fn get_range(&self, from: BlockNumber, to: BlockNumber) -> (r: Vec<
        (BlockNumber, Vec<EntityWithType>),
    >)
        ensures
            r@.map_values(|b: (BlockNumber, Vec<EntityWithType>)| block_view(&b)) == restrict(
                self.view(),
                from as int,
                to as int,
            ),
    {
        let mut out: Vec<(BlockNumber, Vec<EntityWithType>)> = Vec::new();
        let mut i: usize = 0;
        while i < self.entities.len()
            invariant
                i <= self.entities@.len(),
                out@.map_values(|b: (BlockNumber, Vec<EntityWithType>)| block_view(&b)) == restrict(
                    self.view().take(i as int),
                    from as int,
                    to as int,
                ),
            decreases self.entities@.len() - i,
        {
            let n = self.entities[i].0;
            proof {
                assert(self.view().take(i + 1).drop_last() =~= self.view().take(i as int));
            }
            if from <= n && n < to {
                let src = &self.entities[i].1;
                let mut copy: Vec<EntityWithType> = Vec::new();
                let mut j: usize = 0;
                while j < src.len()
                    invariant
                        j <= src@.len(),
                        copy@.map_values(|e: EntityWithType| e.change()) =~= src@.take(
                            j as int,
                        ).map_values(|e: EntityWithType| e.change()),
                    decreases src@.len() - j,
                {
                    let d = src[j].duplicate();
                    let ghost prev = copy@;
                    copy.push(d);
                    proof {
                        let f = |e: EntityWithType| e.change();
                        assert(copy@.map_values(f) =~= prev.map_values(f).push(d.change()));
                        assert(src@.take(j as int).push(src@[j as int]).map_values(f) =~= src@.take(
                            j as int,
                        ).map_values(f).push(src@[j as int].change()));
                        assert(src@.take(j + 1) =~= src@.take(j as int).push(src@[j as int]));
                        assert(copy@.map_values(f) =~= src@.take(j + 1).map_values(f));
                    }
                    j = j + 1;
                }
                proof {
                    assert(src@.take(src@.len() as int) =~= src@);
                }
                let ghost before = out@;
                out.push((n, copy));
                proof {
                    assert(out@.map_values(|b: (BlockNumber, Vec<EntityWithType>)| block_view(&b))
                        =~= before.map_values(|b: (BlockNumber, Vec<EntityWithType>)| block_view(&b)).push(
                        self.view()[i as int],
                    ));
                }
            }
            i = i + 1;
        }
        proof {
            assert(self.view().take(i as int) =~= self.view());
        }
        out
    }

    pub fn set_block_ptr(&mut self, ptr: BlockPtr)
        ensures
            final(self).block_ptr == Some(ptr),
            final(self).entities == old(self).entities,
            old(self).wf() ==> final(self).wf(),
    {
        self.block_ptr = Some(ptr);
    }

    pub fn clear_block_ptr(&mut self)
        ensures
            final(self).block_ptr is None,
            final(self).entities == old(self).entities,
            old(self).wf() ==> final(self).wf(),
    {
        self.block_ptr = None;
    }
}

} // verus!
