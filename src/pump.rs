//! Head bookkeeping of the block pump: commits per block and rewinds on
//! reorganisation.
use vstd::prelude::*;
use crate::store::{BlockNumber, BlockPtr};

verus! {

/// How the handlers of one block ended.
#[derive(Debug, Clone, Copy, PartialEq, Eq, Structural)]
pub enum BlockOutcome {
    Processed,
    /// A replay-stable failure: the deployment is marked failed.
    DeterministicFailure,
    /// A transient failure: the block is tried again later.
    NonDeterministicFailure,
}

#[derive(Debug, Clone, Copy, PartialEq, Eq, Structural)]
pub enum PumpError {
    /// The block does not follow the head.
    OutOfOrder,
    DeterministicFailure,
    NonDeterministicFailure,
}

/// One committed entity change: the block it belongs to and its version id.
#[derive(Debug, Clone, Copy, PartialEq, Eq, Structural)]
pub struct Change {
    pub block: BlockNumber,
    pub vid: i64,
}

/// The changes of `s` made at or before block `a`, in order.
pub open spec fn upto(s: Seq<Change>, a: int) -> Seq<Change>
    decreases s.len(),
{
    if s.len() == 0 {
        s
    } else if s.last().block <= a {
        upto(s.drop_last(), a).push(s.last())
    } else {
        upto(s.drop_last(), a)
    }
}

/// The writable store of one deployment: its head and its committed changes.
pub struct DeploymentStore {
    pub head: Option<BlockPtr>,
    pub changes: Vec<Change>,
}

impl DeploymentStore {
    /// No change lies beyond the head.
    pub open spec fn wf(&self) -> bool {
        forall|i: int|
            0 <= i < self.changes@.len() ==> self.head is Some && #[trigger] self.changes@[i].block
                <= self.head->Some_0.number
    }

    pub open spec fn follows_head(&self, block: BlockNumber) -> bool {
        match self.head {
            None => true,
            Some(h) => h.number < block,
        }
    }

    pub fn new() -> (r: DeploymentStore)
        ensures
            r.wf(),
            r.head is None,
            r.changes@.len() == 0,
    {
        DeploymentStore { head: None, changes: Vec::new() }
    }

    /// Commits the changes of `block` when its handlers succeeded: the head
    /// becomes that block. On failure, or when the block does not follow the
    /// head, nothing changes.
    pub fn commit_block(&mut self, ptr: BlockPtr, vids: &Vec<i64>, outcome: BlockOutcome) -> (r:
        Result<(), PumpError>)
        requires
            old(self).wf(),
        ensures
            final(self).wf(),
            !old(self).follows_head(ptr.number) ==> r == Err::<(), _>(PumpError::OutOfOrder)
                && *final(self) == *old(self),
            old(self).follows_head(ptr.number) && outcome == BlockOutcome::DeterministicFailure
                ==> r == Err::<(), _>(PumpError::DeterministicFailure) && *final(self) == *old(self),
            old(self).follows_head(ptr.number) && outcome == BlockOutcome::NonDeterministicFailure
                ==> r == Err::<(), _>(PumpError::NonDeterministicFailure) && *final(self) == *old(self),
            old(self).follows_head(ptr.number) && outcome == BlockOutcome::Processed ==> r is Ok
                && final(self).head == Some(ptr) && final(self).changes@ == old(self).changes@
                + vids@.map_values(|v: i64| Change { block: ptr.number, vid: v }),
    {
        let block = ptr.number;
        let follows = match &self.head {
            None => true,
            Some(h) => h.number < block,
        };
        if !follows {
            return Err(PumpError::OutOfOrder);
        }
        match outcome {
            BlockOutcome::DeterministicFailure => {
                return Err(PumpError::DeterministicFailure);
            },
            BlockOutcome::NonDeterministicFailure => {
                return Err(PumpError::NonDeterministicFailure);
            },
            BlockOutcome::Processed => {},
        }
        let ghost before = self.changes@;
        let mut i: usize = 0;
        while i < vids.len()
            invariant
                i <= vids@.len(),
                self.changes@ == before + vids@.take(i as int).map_values(
                    |v: i64| Change { block, vid: v },
                ),
                forall|k: int|
                    0 <= k < self.changes@.len() ==> #[trigger] self.changes@[k].block <= block,
            decreases vids@.len() - i,
        {
            let ghost prev = self.changes@;
            self.changes.push(Change { block, vid: vids[i] });
            proof {
                let f = |v: i64| Change { block, vid: v };
                assert(vids@.take(i + 1) =~= vids@.take(i as int).push(vids@[i as int]));
                assert(vids@.take(i + 1).map_values(f) =~= vids@.take(i as int).map_values(f).push(
                    f(vids@[i as int]),
                ));
            }
            i = i + 1;
        }
        proof {
            assert(vids@.take(i as int) =~= vids@);
        }
        self.head = Some(ptr);
        Ok(())
    }

    /// Rewinds to the common ancestor of a reorganisation: the head becomes
    /// `ancestor` and the changes of later blocks are dropped.
    pub fn revert_to(&mut self, ancestor: BlockPtr)
        requires
            old(self).wf(),
            old(self).head is Some,
            ancestor.number <= old(self).head->Some_0.number,
        ensures
            final(self).wf(),
            final(self).head == Some(ancestor),
            final(self).changes@ == upto(old(self).changes@, ancestor.number as int),
    {
        let a = ancestor.number;
        let mut kept: Vec<Change> = Vec::new();
        let mut i: usize = 0;
        while i < self.changes.len()
            invariant
                i <= self.changes@.len(),
                kept@ == upto(self.changes@.take(i as int), a as int),
                forall|k: int| 0 <= k < kept@.len() ==> #[trigger] kept@[k].block <= a,
            decreases self.changes@.len() - i,
        {
            let c = self.changes[i];
            proof {
                assert(self.changes@.take(i + 1).drop_last() =~= self.changes@.take(i as int));
            }
            if c.block <= a {
                kept.push(c);
            }
            i = i + 1;
        }
        proof {
            assert(self.changes@.take(i as int) =~= self.changes@);
        }
        self.changes = kept;
        self.head = Some(ancestor);
    }

    /// The version ids visible to readers, in commit order.
    pub fn visible_vids(&self) -> (r: Vec<i64>)
        ensures
            r@ == self.changes@.map_values(|c: Change| c.vid),
    {
        let mut out: Vec<i64> = Vec::new();
        let mut i: usize = 0;
        while i < self.changes.len()
            invariant
                i <= self.changes@.len(),
                out@ =~= self.changes@.take(i as int).map_values(|c: Change| c.vid),
            decreases self.changes@.len() - i,
        {
            out.push(self.changes[i].vid);
            i = i + 1;
        }
        proof {
            assert(self.changes@.take(i as int) =~= self.changes@);
        }
        out
    }
}

} // verus!
