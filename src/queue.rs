//! Deferred retry of text blocks whose fonts are not loaded yet.
use vstd::prelude::*;

verus! {

/// Identifies a text block.
pub type BlockId = u64;

/// What processing a block came to.
#[derive(Clone, Copy, Debug, PartialEq, Eq, Structural)]
pub enum BlockStatus {
    /// The block was laid out and its children replaced.
    Laid,
    /// A font of the block is not loaded: nothing was changed, retry next cycle.
    Deferred,
    /// The block no longer exists.
    Missing,
}

/// The blocks of `log` that were deferred, each once, in the order of their
/// first deferral.
pub open spec fn deferred_of(log: Seq<(BlockId, BlockStatus)>) -> Seq<BlockId>
    decreases log.len(),
{
    if log.len() == 0 {
        Seq::empty()
    } else {
        let rest = deferred_of(log.drop_last());
        let (b, st) = log.last();
        if st == BlockStatus::Deferred && !rest.contains(b) {
            rest.push(b)
        } else {
            rest
        }
    }
}

pub open spec fn blocks_of(log: Seq<(BlockId, BlockStatus)>) -> Seq<BlockId> {
    log.map_values(|e: (BlockId, BlockStatus)| e.0)
}

/// One cycle from the retry list `due` with the changed blocks `changed`: the
/// blocks are processed in the order `due` then `changed`, as `log` records, and
/// the next retry list is `next`, the blocks deferred in this cycle.
pub open spec fn cycle_outcome(
    due: Seq<BlockId>,
    changed: Seq<BlockId>,
    log: Seq<(BlockId, BlockStatus)>,
    next: Seq<BlockId>,
) -> bool {
    &&& blocks_of(log) == due + changed
    &&& next == deferred_of(log)
}

proof fn lemma_deferred_of(log: Seq<(BlockId, BlockStatus)>, b: BlockId)
    ensures
        deferred_of(log).contains(b) <==> log.contains((b, BlockStatus::Deferred)),
    decreases log.len(),
{
    if log.len() > 0 {
        let init = log.drop_last();
        lemma_deferred_of(init, b);
        assert(log =~= init.push(log.last()));
        if init.contains((b, BlockStatus::Deferred)) {
            let j = choose|j: int| 0 <= j < init.len() && init[j] == (b, BlockStatus::Deferred);
            assert(log[j] == init[j]);
        }
        if log.contains((b, BlockStatus::Deferred)) {
            let j = choose|j: int| 0 <= j < log.len() && log[j] == (b, BlockStatus::Deferred);
            if j < init.len() {
                assert(init[j] == log[j]);
            }
        }
        let rest = deferred_of(init);
        if log.last().1 == BlockStatus::Deferred && !rest.contains(log.last().0) {
            assert(rest.push(log.last().0).last() == log.last().0);
            if rest.push(log.last().0).contains(b) && log.last().0 != b {
                let j = choose|j: int|
                    0 <= j < rest.push(log.last().0).len() && rest.push(log.last().0)[j] == b;
                assert(rest[j] == b);
            }
            if rest.contains(b) {
                let j = choose|j: int| 0 <= j < rest.len() && rest[j] == b;
                assert(rest.push(log.last().0)[j] == b);
            }
        }
    }
}

/// A block deferred in one cycle is due in the next: it is retried there among
/// the waiting blocks, before any changed block. Once it is no longer deferred in
/// that cycle (its fonts have loaded, or it is gone), it is not due again.
pub proof fn lemma_deferred_block_retried_next_cycle(
    due0: Seq<BlockId>,
    changed0: Seq<BlockId>,
    log0: Seq<(BlockId, BlockStatus)>,
    due1: Seq<BlockId>,
    changed1: Seq<BlockId>,
    log1: Seq<(BlockId, BlockStatus)>,
    due2: Seq<BlockId>,
    b: BlockId,
)
    requires
        cycle_outcome(due0, changed0, log0, due1),
        cycle_outcome(due1, changed1, log1, due2),
        log0.contains((b, BlockStatus::Deferred)),
    ensures
        due1.contains(b),
        exists|i: int| 0 <= i < due1.len() && (#[trigger] log1[i]).0 == b,
        !log1.contains((b, BlockStatus::Deferred)) ==> !due2.contains(b),
{
    lemma_deferred_of(log0, b);
    lemma_deferred_of(log1, b);
    let i = choose|i: int| 0 <= i < due1.len() && due1[i] == b;
    assert(blocks_of(log1).len() == log1.len());
    assert(blocks_of(log1)[i] == (due1 + changed1)[i]);
    assert(blocks_of(log1)[i] == log1[i].0);
}

/// What a retry queue holds: the blocks due in the current (or coming) cycle,
/// those deferred so far to the next one, what was recorded in the current cycle,
/// and the retry list and changed blocks the current cycle began with.
pub struct QueueView {
    pub due: Seq<BlockId>,
    pub next: Seq<BlockId>,
    pub log: Seq<(BlockId, BlockStatus)>,
    pub began_due: Seq<BlockId>,
    pub began_changed: Seq<BlockId>,
}

/// The next cycle's list holds exactly the blocks deferred so far, once each.
pub open spec fn next_matches_log(v: QueueView) -> bool {
    v.next == deferred_of(v.log)
}

/// The two retry lists. A cycle is driven in three steps: `begin_cycle` gives the
/// order in which to process blocks, `record` takes what became of each, and
/// `end_cycle` makes the deferred blocks due.
pub struct RetryQueue {
    due_now: Vec<BlockId>,
    due_next: Vec<BlockId>,
    log: Ghost<Seq<(BlockId, BlockStatus)>>,
    began_due: Ghost<Seq<BlockId>>,
    began_changed: Ghost<Seq<BlockId>>,
}

impl View for RetryQueue {
    type V = QueueView;

    closed spec fn view(&self) -> QueueView {
        QueueView {
            due: self.due_now@,
            next: self.due_next@,
            log: self.log@,
            began_due: self.began_due@,
            began_changed: self.began_changed@,
        }
    }
}

impl RetryQueue {
    pub fn new() -> (r: RetryQueue)
        ensures
            r@.due == Seq::<BlockId>::empty(),
            r@.next == Seq::<BlockId>::empty(),
            r@.log == Seq::<(BlockId, BlockStatus)>::empty(),
    {
        RetryQueue {
            due_now: Vec::new(),
            due_next: Vec::new(),
            log: Ghost(Seq::empty()),
            began_due: Ghost(Seq::empty()),
            began_changed: Ghost(Seq::empty()),
        }
    }

    /// The blocks due for a retry in the coming cycle.
    pub fn pending(&self) -> (r: Vec<BlockId>)
        ensures
            r@ == self@.due,
    {
        self.due_now.clone()
    }

    /// Starts a cycle: returns the blocks to process, in order: those due for a
    /// retry first, then the changed ones.
    pub fn begin_cycle(&mut self, changed: &Vec<BlockId>) -> (order: Vec<BlockId>)
        ensures
            order@ == old(self)@.due + changed@,
            final(self)@.due == old(self)@.due,
            final(self)@.next == Seq::<BlockId>::empty(),
            final(self)@.log == Seq::<(BlockId, BlockStatus)>::empty(),
            final(self)@.began_due == old(self)@.due,
            final(self)@.began_changed == changed@,
    {
        self.due_next.clear();
        self.log = Ghost(Seq::empty());
        self.began_due = Ghost(self.due_now@);
        self.began_changed = Ghost(changed@);
        let mut order = self.due_now.clone();
        let n = changed.len();
        let mut i: usize = 0;
        while i < n
            invariant
                n == changed@.len(),
                i <= n,
                order@ == self.due_now@ + changed@.subrange(0, i as int),
            decreases n - i,
        {
            order.push(changed[i]);
            proof {
                assert(self.due_now@ + changed@.subrange(0, i + 1) =~= (self.due_now@
                    + changed@.subrange(0, i as int)).push(changed@[i as int]));
            }
            i += 1;
        }
        proof {
            assert(changed@.subrange(0, n as int) =~= changed@);
        }
        order
    }

    /// Records what became of `block`: a deferred block is due in the next cycle,
    /// once however often it is deferred.
    pub fn record(&mut self, block: BlockId, status: BlockStatus)
        ensures
            final(self)@.due == old(self)@.due,
            final(self)@.began_due == old(self)@.began_due,
            final(self)@.began_changed == old(self)@.began_changed,
            final(self)@.log == old(self)@.log.push((block, status)),
            final(self)@.next == if status == BlockStatus::Deferred && !old(self)@.next.contains(block) {
                old(self)@.next.push(block)
            } else {
                old(self)@.next
            },
            next_matches_log(old(self)@) ==> next_matches_log(final(self)@),
    {
        let ghost old_log = self.log@;
        if status == BlockStatus::Deferred {
            self.defer(block);
        }
        self.log = Ghost(old_log.push((block, status)));
        proof {
            assert(self.log@.drop_last() =~= old_log);
        }
    }

    /// Ends a cycle: the blocks deferred in it are due in the next one. When the
    /// blocks were recorded in the order `begin_cycle` gave, the cycle went as
    /// `cycle_outcome` says.
    pub fn end_cycle(&mut self)
        ensures
            final(self)@.due == old(self)@.next,
            final(self)@.next == Seq::<BlockId>::empty(),
            final(self)@.log == Seq::<(BlockId, BlockStatus)>::empty(),
            next_matches_log(old(self)@) && blocks_of(old(self)@.log) == old(self)@.began_due
                + old(self)@.began_changed ==> cycle_outcome(
                old(self)@.began_due,
                old(self)@.began_changed,
                old(self)@.log,
                final(self)@.due,
            ),
    {
        std::mem::swap(&mut self.due_now, &mut self.due_next);
        self.due_next.clear();
        self.log = Ghost(Seq::empty());
    }

    /// Adds `block` to the next cycle's list unless it is there already.
    fn defer(&mut self, block: BlockId)
        ensures
            final(self).due_now == old(self).due_now,
            final(self).log == old(self).log,
            final(self).began_due == old(self).began_due,
            final(self).began_changed == old(self).began_changed,
            final(self).due_next@ == if old(self).due_next@.contains(block) {
                old(self).due_next@
            } else {
                old(self).due_next@.push(block)
            },
    {
        let n = self.due_next.len();
        let mut i: usize = 0;
        while i < n
            invariant
                n == self.due_next@.len(),
                i <= n,
                forall|j: int| 0 <= j < i ==> self.due_next@[j] != block,
            decreases n - i,
        {
            if self.due_next[i] == block {
                assert(self.due_next@[i as int] == block);
                return;
            }
            i += 1;
        }
        self.due_next.push(block);
    }
}

} // verus!
