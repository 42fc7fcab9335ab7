//! The batch run as a state machine: it hands out one batch's instructions at
//! a time and records how each submission went. Whoever performs the
//! submissions drives it; a failed batch never stops the batches after it.
use vstd::prelude::*;
use crate::batch::{batch_count, is_partition, partition, views};
use crate::builder::{
    ComputeBudget, budgeted_transfers_of, build_budgeted_transfers, build_transfers, first_invalid,
    transfers_of,
};
use crate::chain::{Address, Instruction};
use crate::ledger::PaymentEntry;

verus! {

/// How each batch reaches the chain.
#[derive(Clone, Copy, Debug)]
pub enum Backend {
    /// A hosted relay that picks the block reference, sets fees, signs and retries.
    Relay,
    /// A node, with the compute-budget directives put ahead of the transfers.
    Node { budget: ComputeBudget },
}

/// What to do next.
#[derive(Debug)]
pub enum Step {
    /// Submit these instructions, signed by the source, as batch `batch_number`
    /// (counted from one).
    Submit { batch_number: usize, instructions: Vec<Instruction> },
    /// The entry at `index` of batch `batch_number` has an invalid address:
    /// the run stops.
    Abort { batch_number: usize, index: usize },
    /// Every batch has been submitted.
    Finished,
}

/// How the submission of one batch ended: the receipt, or the error.
#[derive(Debug)]
pub struct BatchReport {
    pub batch_number: usize,
    pub result: Result<String, String>,
}

/// A run over the batches of a ledger.
pub struct BatchRun {
    pub batches: Vec<Vec<PaymentEntry>>,
    pub source: Address,
    pub backend: Backend,
    /// The batch to submit next, counted from zero.
    pub next: usize,
    /// One report per batch submitted so far, in batch order.
    pub reports: Vec<BatchReport>,
}

/// The instructions that `backend` submits for `batch` from `source`.
pub open spec fn instructions_for(
    backend: Backend,
    source: Seq<u8>,
    batch: Seq<PaymentEntry>,
    ixs: Seq<Instruction>,
) -> bool {
    match backend {
        Backend::Relay => transfers_of(source, batch, ixs),
        Backend::Node { budget } => budgeted_transfers_of(source, budget, batch, ixs),
    }
}

impl BatchRun {
    /// Every batch before `next` has exactly one report, numbered from one and in order.
    pub open spec fn wf(&self) -> bool {
        &&& self.next <= self.batches@.len()
        &&& self.reports@.len() == self.next
        &&& forall|i: int|
            0 <= i < self.reports@.len() ==> (#[trigger] self.reports@[i]).batch_number == i + 1
    }

    /// A run over `entries` in batches of `batch_size`, with nothing submitted yet.
    pub fn new(entries: Vec<PaymentEntry>, batch_size: usize, source: Address, backend: Backend) -> (r:
        BatchRun)
        requires
            batch_size > 0,
        ensures
            r.wf(),
            r.next == 0,
            is_partition(views(r.batches@), entries@, batch_size as nat),
            r.batches@.len() == batch_count(entries@.len(), batch_size as nat),
            r.source == source,
            r.backend == backend,
    {
        let batches = partition(entries, batch_size);
        BatchRun { batches, source, backend, next: 0, reports: Vec::new() }
    }

    /// The step for batch `next`: its instructions, or why it cannot be
    /// built; `Finished` once every batch has been submitted.
    pub fn next_step(&self) -> (r: Step)
        requires
            self.wf(),
        ensures
            self.next == self.batches@.len() <==> r is Finished,
            match r {
                Step::Submit { batch_number, instructions } => {
                    &&& batch_number == self.next + 1
                    &&& instructions_for(
                        self.backend,
                        self.source.bytes@,
                        self.batches@[self.next as int]@,
                        instructions@,
                    )
                },
                Step::Abort { batch_number, index } => {
                    &&& batch_number == self.next + 1
                    &&& first_invalid(self.batches@[self.next as int]@, index as int)
                },
                Step::Finished => true,
            },
    {
        if self.next >= self.batches.len() {
            return Step::Finished;
        }
        let batch = &self.batches[self.next];
        let built = match self.backend {
            Backend::Relay => build_transfers(&self.source, batch),
            Backend::Node { budget } => build_budgeted_transfers(&self.source, &budget, batch),
        };
        match built {
            Ok(instructions) => Step::Submit { batch_number: self.next + 1, instructions },
            Err(e) => Step::Abort { batch_number: self.next + 1, index: e.index },
        }
    }

    /// Records how the submission of batch `next` ended and moves on to the
    /// following batch, whatever the result.
    pub fn record(&mut self, result: Result<String, String>)
        requires
            old(self).wf(),
            old(self).next < old(self).batches@.len(),
        ensures
            final(self).wf(),
            final(self).next == old(self).next + 1,
            final(self).reports@ == old(self).reports@.push(
                BatchReport { batch_number: (old(self).next + 1) as usize, result },
            ),
            final(self).batches == old(self).batches,
            final(self).source == old(self).source,
            final(self).backend == old(self).backend,
    {
        // `next` is below a `usize` length, so the batch number fits.
        let _count = self.batches.len();
        let report = BatchReport { batch_number: self.next + 1, result };
        self.reports.push(report);
        self.next = self.next + 1;
    }

    /// Whether every batch has been submitted.
    pub fn is_finished(&self) -> (r: bool)
        requires
            self.wf(),
        ensures
            r == (self.next == self.batches@.len()),
    {
        self.next >= self.batches.len()
    }
}

/// A failed submission stops nothing: after any result is recorded for a
/// batch that is not the last, the next step is the following batch, and the
/// reports stay one per attempted batch, in batch order.
pub proof fn lemma_failure_does_not_stop_run(before: BatchRun, after: BatchRun, error: String)
    requires
        before.wf(),
        before.next + 1 < before.batches@.len(),
        after.wf(),
        after.next == before.next + 1,
        after.batches == before.batches,
        after.reports@ == before.reports@.push(
            BatchReport { batch_number: (before.next + 1) as usize, result: Err(error) },
        ),
    ensures
        after.next < after.batches@.len(),
        after.reports@.len() == after.next,
        after.reports@.last().batch_number == after.next,
        after.reports@.last().result == Err::<String, String>(error),
        forall|i: int| 0 <= i < after.reports@.len() ==> (#[trigger] after.reports@[i]).batch_number == i + 1,
{
}

} // verus!
