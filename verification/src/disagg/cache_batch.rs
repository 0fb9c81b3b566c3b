//! Bounded cache preparation in fresh, serial child processes: the order of the
//! parts, when a batch stops, and what its report says at each boundary. The
//! host runs the children; every reply yields the next call.
use crate::ane::static_cache::{graph_count, AneStaticCachePart};
use crate::ane::weight_plan::{plan_programs, AneWeightPlan};
use crate::disagg::cache_receipt::ValidatedPart;
use crate::text::{decimal, decimal_text, texts};
use vstd::prelude::*;

verus! {

/// What the receipt of a batch claims.
pub const BATCH_CLAIM: &'static str = "Serial, bounded, fresh-process cache visits; availability can change. Does not prove simultaneous residency or numerical inference.";

/// How many parts a batch has.
pub const PARTS: usize = 4;

/// One part of a batch: its flag, its name and how many graphs it has.
#[derive(Clone, Copy, Debug)]
pub struct BatchPart {
    pub flag: &'static str,
    pub part: &'static str,
    pub count: usize,
}

pub open spec fn part_flag(i: int) -> Seq<char> {
    if i == 0 {
        "qkv"@
    } else if i == 1 {
        "output"@
    } else if i == 2 {
        "ffn-int8"@
    } else {
        "head-attention"@
    }
}

pub open spec fn part_kind(i: int) -> AneStaticCachePart {
    if i == 0 {
        AneStaticCachePart::QueryKeyValue
    } else if i == 1 {
        AneStaticCachePart::Output
    } else if i == 2 {
        AneStaticCachePart::FeedForwardInt8
    } else {
        AneStaticCachePart::VocabularyAndAttention
    }
}

pub open spec fn part_count(i: int) -> nat {
    if i < 3 {
        48
    } else {
        18
    }
}

/// The part at a position of the batch.
pub fn batch_part(i: usize) -> (r: BatchPart)
    requires
        i < PARTS,
    ensures
        r.flag@ == part_flag(i as int),
        r.part@ == crate::ane::static_cache::part_label(part_kind(i as int)),
        r.count == part_count(i as int),
{
    if i == 0 {
        BatchPart { flag: "qkv", part: "QueryKeyValue", count: 48 }
    } else if i == 1 {
        BatchPart { flag: "output", part: "Output", count: 48 }
    } else if i == 2 {
        BatchPart { flag: "ffn-int8", part: "FeedForwardInt8", count: 48 }
    } else {
        BatchPart { flag: "head-attention", part: "VocabularyAndAttention", count: 18 }
    }
}

/// The parts of a batch are exactly the programs of the INT8 FFN plan, each
/// part with as many graphs as its visit has.
pub proof fn parts_are_the_int8_plan(i: int)
    requires
        0 <= i < PARTS,
    ensures
        part_count(i) == graph_count(part_kind(i)),
        part_count(0) + part_count(1) + part_count(2) + part_count(3) == plan_programs(
            AneWeightPlan::StaticInt8FfnCached,
        ),
{
}

/// The arguments of a part's child process.
pub open spec fn child_arguments(
    model: Seq<char>,
    inspect: bool,
    flag: Seq<char>,
    capacity: usize,
    directory: Seq<char>,
) -> Seq<Seq<char>> {
    seq![
        "--model-dir"@,
        model,
        if inspect {
            "--inspect-ane-cache"@
        } else {
            "--prepare-ane-cache"@
        },
        flag,
        "--context-capacity"@,
        decimal(capacity as nat),
        "--output-dir"@,
        directory,
    ]
}

pub fn child_args(model: &str, inspect: bool, flag: &str, capacity: usize, directory: &str) -> (r:
    Vec<String>)
    ensures
        texts(r@) == child_arguments(model@, inspect, flag@, capacity, directory@),
{
    let mut args: Vec<String> = Vec::new();
    args.push("--model-dir".to_owned());
    args.push(model.to_owned());
    if inspect {
        args.push("--inspect-ane-cache".to_owned());
    } else {
        args.push("--prepare-ane-cache".to_owned());
    }
    args.push(flag.to_owned());
    args.push("--context-capacity".to_owned());
    args.push(decimal_text(capacity as u64));
    args.push("--output-dir".to_owned());
    args.push(directory.to_owned());
    assert(texts(args@) =~= child_arguments(model@, inspect, flag@, capacity, directory@));
    args
}

// ---------------------------------------------------------------------------
// The report
// ---------------------------------------------------------------------------

/// How a batch stands.
#[derive(Clone, Copy, Debug, PartialEq, Eq, Structural)]
pub enum BatchStatus {
    Running,
    Cancelled,
    Failed,
    Complete,
}

pub open spec fn status_name(status: BatchStatus) -> Seq<char> {
    match status {
        BatchStatus::Running => "running"@,
        BatchStatus::Cancelled => "cancelled"@,
        BatchStatus::Failed => "failed"@,
        BatchStatus::Complete => "complete"@,
    }
}

impl BatchStatus {
    pub fn name(self) -> (r: &'static str)
        ensures
            r@ == status_name(self),
    {
        match self {
            BatchStatus::Running => "running",
            BatchStatus::Cancelled => "cancelled",
            BatchStatus::Failed => "failed",
            BatchStatus::Complete => "complete",
        }
    }
}

/// What became of a part.
#[derive(Debug)]
pub enum PartRecord {
    Validated(ValidatedPart),
    Failed(String),
}

pub open spec fn record_available(record: PartRecord) -> nat {
    match record {
        PartRecord::Validated(v) => v.available as nat,
        PartRecord::Failed(_) => 0,
    }
}

pub open spec fn record_compiled(record: PartRecord) -> nat {
    match record {
        PartRecord::Validated(v) => v.compiler_calls as nat,
        PartRecord::Failed(_) => 0,
    }
}

pub open spec fn available_sum(records: Seq<PartRecord>, count: int) -> nat
    decreases count,
{
    if count <= 0 {
        0
    } else {
        available_sum(records, count - 1) + record_available(records[count - 1])
    }
}

pub open spec fn compiled_sum(records: Seq<PartRecord>, count: int) -> nat
    decreases count,
{
    if count <= 0 {
        0
    } else {
        compiled_sum(records, count - 1) + record_compiled(records[count - 1])
    }
}

/// The totals of a report.
#[derive(Clone, Copy, Debug, PartialEq, Eq, Structural)]
pub struct BatchTotals {
    pub available: u64,
    pub compiled: u64,
    pub all_available: bool,
}

/// Records of parts, each within the bound of its graphs.
pub open spec fn records_bounded(records: Seq<PartRecord>) -> bool {
    &&& records.len() <= PARTS
    &&& forall|i: int|
        0 <= i < records.len() ==> record_available(#[trigger] records[i]) <= 48
            && record_compiled(records[i]) <= 48
}

proof fn sums_bounded(records: Seq<PartRecord>, count: int)
    requires
        records_bounded(records),
        0 <= count <= records.len(),
    ensures
        available_sum(records, count) <= 48 * count,
        compiled_sum(records, count) <= 48 * count,
    decreases count,
{
    if count > 0 {
        sums_bounded(records, count - 1);
    }
}

/// The totals over the validated parts. Every program was available only if the
/// batch is complete and the parts together found all of them.
pub fn batch_totals(records: &Vec<PartRecord>, status: BatchStatus) -> (r: BatchTotals)
    requires
        records_bounded(records@),
    ensures
        r.available == available_sum(records@, records@.len() as int),
        r.compiled == compiled_sum(records@, records@.len() as int),
        r.all_available == (status == BatchStatus::Complete && r.available == 162),
{
    let mut available: u64 = 0;
    let mut compiled: u64 = 0;
    let mut i: usize = 0;
    while i < records.len()
        invariant
            i <= records@.len(),
            records_bounded(records@),
            available == available_sum(records@, i as int),
            compiled == compiled_sum(records@, i as int),
            available <= 48 * i,
            compiled <= 48 * i,
        decreases records@.len() - i,
    {
        proof {
            assert(record_available(records@[i as int]) <= 48);
        }
        match &records[i] {
            PartRecord::Validated(v) => {
                available = available + v.available;
                compiled = compiled + v.compiler_calls;
            },
            PartRecord::Failed(_) => {},
        }
        i = i + 1;
    }
    BatchTotals {
        available,
        compiled,
        all_available: matches!(status, BatchStatus::Complete) && available == 162,
    }
}

// ---------------------------------------------------------------------------
// The batch
// ---------------------------------------------------------------------------

/// What follows once a report is saved.
#[derive(Debug)]
pub enum AfterSave {
    Continue,
    Fail(String),
    Finish,
}

/// What a batch waits for.
#[derive(Debug)]
pub enum BatchStage {
    Saving(AfterSave),
    AskingBefore,
    Running,
    AskingAfterFailure(String),
    AskingAtEnd,
    Finished,
}

/// What the host does for a batch.
#[derive(Debug)]
pub enum BatchCall {
    /// Write the report: its status and, after a failed part, the error.
    Save { status: BatchStatus, error: Option<String> },
    /// Answer whether cancellation was requested.
    IsCancelled,
    /// Run a part's child process to its end and validate what it left.
    RunPart { index: usize },
    Completed,
    Failed { error: String },
}

#[derive(Debug)]
pub enum BatchReply {
    Saved(Result<(), String>),
    Cancelled(bool),
    Ran(Result<ValidatedPart, String>),
}

#[derive(Debug)]
pub struct CacheBatch {
    records: Vec<PartRecord>,
    stage: BatchStage,
}

pub enum AfterSaveModel {
    Continue,
    Fail(Seq<char>),
    Finish,
}

pub enum BatchStageModel {
    Saving(AfterSaveModel),
    AskingBefore,
    Running,
    AskingAfterFailure(Seq<char>),
    AskingAtEnd,
    Finished,
}

pub enum BatchCallModel {
    Save { status: BatchStatus, error: Option<Seq<char>> },
    IsCancelled,
    RunPart { index: int },
    Completed,
    Failed { error: Seq<char> },
}

pub struct BatchModel {
    pub records: Seq<PartRecord>,
    pub stage: BatchStageModel,
}

pub open spec fn after_save_model(a: AfterSave) -> AfterSaveModel {
    match a {
        AfterSave::Continue => AfterSaveModel::Continue,
        AfterSave::Fail(e) => AfterSaveModel::Fail(e@),
        AfterSave::Finish => AfterSaveModel::Finish,
    }
}

impl View for CacheBatch {
    type V = BatchModel;

    closed spec fn view(&self) -> BatchModel {
        BatchModel {
            records: self.records@,
            stage: match self.stage {
                BatchStage::Saving(a) => BatchStageModel::Saving(after_save_model(a)),
                BatchStage::AskingBefore => BatchStageModel::AskingBefore,
                BatchStage::Running => BatchStageModel::Running,
                BatchStage::AskingAfterFailure(e) => BatchStageModel::AskingAfterFailure(e@),
                BatchStage::AskingAtEnd => BatchStageModel::AskingAtEnd,
                BatchStage::Finished => BatchStageModel::Finished,
            },
        }
    }
}

impl View for BatchCall {
    type V = BatchCallModel;

    open spec fn view(&self) -> BatchCallModel {
        match self {
            BatchCall::Save { status, error } => BatchCallModel::Save {
                status: *status,
                error: crate::text::opt_text(*error),
            },
            BatchCall::IsCancelled => BatchCallModel::IsCancelled,
            BatchCall::RunPart { index } => BatchCallModel::RunPart { index: *index as int },
            BatchCall::Completed => BatchCallModel::Completed,
            BatchCall::Failed { error } => BatchCallModel::Failed { error: error@ },
        }
    }
}

impl BatchModel {
    /// A part is run only while there is one left, and every earlier one was
    /// validated.
    pub open spec fn well_formed(self) -> bool {
        &&& self.records.len() <= PARTS
        &&& match self.stage {
            BatchStageModel::AskingBefore | BatchStageModel::Running => self.records.len() < PARTS
                && self.all_validated(),
            BatchStageModel::Saving(AfterSaveModel::Continue) => self.all_validated(),
            BatchStageModel::Saving(AfterSaveModel::Finish) | BatchStageModel::AskingAtEnd =>
                self.records.len() == PARTS && self.all_validated(),
            _ => true,
        }
    }

    pub open spec fn all_validated(self) -> bool {
        forall|i: int| 0 <= i < self.records.len() ==> (#[trigger] self.records[i]) is Validated
    }

    pub open spec fn expects(self, reply: BatchReply) -> bool {
        match self.stage {
            BatchStageModel::Saving(_) => reply is Saved,
            BatchStageModel::AskingBefore | BatchStageModel::AskingAtEnd
            | BatchStageModel::AskingAfterFailure(_) => reply is Cancelled,
            BatchStageModel::Running => reply is Ran,
            BatchStageModel::Finished => false,
        }
    }

    pub open spec fn at_stage(self, stage: BatchStageModel) -> BatchModel {
        BatchModel { stage, ..self }
    }

    pub open spec fn failed(self, error: Seq<char>) -> (BatchModel, BatchCallModel) {
        (self.at_stage(BatchStageModel::Finished), BatchCallModel::Failed { error })
    }

    pub open spec fn saving(
        self,
        status: BatchStatus,
        error: Option<Seq<char>>,
        after: AfterSaveModel,
    ) -> (BatchModel, BatchCallModel) {
        (
            self.at_stage(BatchStageModel::Saving(after)),
            BatchCallModel::Save { status, error },
        )
    }

    pub open spec fn cancelling(self) -> (BatchModel, BatchCallModel) {
        self.saving(
            BatchStatus::Cancelled,
            None,
            AfterSaveModel::Fail("ANE cache batch cancelled"@),
        )
    }

    /// The batch and the call that follow a reply, given the records after it.
    pub open spec fn resumed(self, reply: BatchReply, records: Seq<PartRecord>) -> (
        BatchModel,
        BatchCallModel,
    ) {
        let next = BatchModel { records, ..self };
        match (self.stage, reply) {
            (BatchStageModel::Saving(_), BatchReply::Saved(Err(e))) => next.failed(e@),
            (BatchStageModel::Saving(AfterSaveModel::Continue), BatchReply::Saved(Ok(_))) => if records.len() < PARTS {
                (next.at_stage(BatchStageModel::AskingBefore), BatchCallModel::IsCancelled)
            } else {
                (next.at_stage(BatchStageModel::AskingAtEnd), BatchCallModel::IsCancelled)
            },
            (BatchStageModel::Saving(AfterSaveModel::Fail(e)), BatchReply::Saved(Ok(_))) =>
                next.failed(e),
            (BatchStageModel::Saving(AfterSaveModel::Finish), BatchReply::Saved(Ok(_))) => (
                next.at_stage(BatchStageModel::Finished),
                BatchCallModel::Completed,
            ),
            (BatchStageModel::AskingBefore, BatchReply::Cancelled(true)) => next.cancelling(),
            (BatchStageModel::AskingBefore, BatchReply::Cancelled(false)) => (
                next.at_stage(BatchStageModel::Running),
                BatchCallModel::RunPart { index: records.len() as int },
            ),
            (BatchStageModel::Running, BatchReply::Ran(Ok(_))) => next.saving(
                BatchStatus::Running,
                None,
                AfterSaveModel::Continue,
            ),
            (BatchStageModel::Running, BatchReply::Ran(Err(e))) => (
                next.at_stage(BatchStageModel::AskingAfterFailure(e@)),
                BatchCallModel::IsCancelled,
            ),
            (BatchStageModel::AskingAfterFailure(e), BatchReply::Cancelled(cancelled)) =>
                next.saving(
                    if cancelled {
                        BatchStatus::Cancelled
                    } else {
                        BatchStatus::Failed
                    },
                    Some(e),
                    AfterSaveModel::Fail(e),
                ),
            (BatchStageModel::AskingAtEnd, BatchReply::Cancelled(true)) => next.cancelling(),
            (BatchStageModel::AskingAtEnd, BatchReply::Cancelled(false)) => next.saving(
                BatchStatus::Complete,
                None,
                AfterSaveModel::Finish,
            ),
            _ => (next, BatchCallModel::IsCancelled),
        }
    }
}

/// The records after a reply: a part that ran adds one.
pub open spec fn records_after(before: Seq<PartRecord>, after: Seq<PartRecord>, reply: BatchReply) -> bool {
    match reply {
        BatchReply::Ran(Ok(v)) => after == before.push(PartRecord::Validated(v)),
        BatchReply::Ran(Err(e)) => {
            &&& after.len() == before.len() + 1
            &&& forall|i: int| 0 <= i < before.len() ==> after[i] == before[i]
            &&& after.last() is Failed
            &&& after.last()->Failed_0@ == e@
        },
        _ => after == before,
    }
}

impl CacheBatch {
    /// What became of each part so far.
    pub fn records(&self) -> (r: &Vec<PartRecord>)
        ensures
            r@ == self@.records,
    {
        &self.records
    }

    /// Starts a batch: its first report says that it is running.
    pub fn run_all() -> (r: (CacheBatch, BatchCall))
        ensures
            r.0@.well_formed(),
            r.0@ == (BatchModel {
                records: Seq::empty(),
                stage: BatchStageModel::Saving(AfterSaveModel::Continue),
            }),
            r.1@ == (BatchCallModel::Save { status: BatchStatus::Running, error: None }),
    {
        let batch = CacheBatch {
            records: Vec::new(),
            stage: BatchStage::Saving(AfterSave::Continue),
        };
        assert(batch@.records =~= Seq::empty());
        (batch, BatchCall::Save { status: BatchStatus::Running, error: None })
    }

    fn cancel(&mut self) -> (call: BatchCall)
        ensures
            (final(self)@, call@) == old(self)@.cancelling(),
    {
        self.stage = BatchStage::Saving(AfterSave::Fail("ANE cache batch cancelled".to_owned()));
        BatchCall::Save { status: BatchStatus::Cancelled, error: None }
    }

    /// Takes the host's reply and returns its next call.
    pub fn resume(&mut self, reply: BatchReply) -> (call: BatchCall)
        requires
            old(self)@.well_formed(),
            old(self)@.expects(reply),
        ensures
            final(self)@.well_formed(),
            records_after(old(self)@.records, final(self)@.records, reply),
            (final(self)@, call@) == old(self)@.resumed(reply, final(self)@.records),
    {
        let mut stage = BatchStage::Finished;
        std::mem::swap(&mut self.stage, &mut stage);
        match stage {
            BatchStage::Saving(after) => {
                match reply {
                    BatchReply::Saved(Err(error)) => BatchCall::Failed { error },
                    _ => match after {
                        AfterSave::Continue => {
                            if self.records.len() < PARTS {
                                self.stage = BatchStage::AskingBefore;
                            } else {
                                self.stage = BatchStage::AskingAtEnd;
                            }
                            BatchCall::IsCancelled
                        },
                        AfterSave::Fail(error) => BatchCall::Failed { error },
                        AfterSave::Finish => BatchCall::Completed,
                    },
                }
            },
            BatchStage::AskingBefore => {
                match reply {
                    BatchReply::Cancelled(true) => self.cancel(),
                    _ => {
                        self.stage = BatchStage::Running;
                        BatchCall::RunPart { index: self.records.len() }
                    },
                }
            },
            BatchStage::Running => {
                match reply {
                    BatchReply::Ran(Ok(validated)) => {
                        self.records.push(PartRecord::Validated(validated));
                        self.stage = BatchStage::Saving(AfterSave::Continue);
                        BatchCall::Save { status: BatchStatus::Running, error: None }
                    },
                    BatchReply::Ran(Err(error)) => {
                        self.records.push(PartRecord::Failed(error.clone()));
                        self.stage = BatchStage::AskingAfterFailure(error);
                        BatchCall::IsCancelled
                    },
                    _ => BatchCall::IsCancelled,
                }
            },
            BatchStage::AskingAfterFailure(error) => {
                let status = match reply {
                    BatchReply::Cancelled(true) => BatchStatus::Cancelled,
                    _ => BatchStatus::Failed,
                };
                self.stage = BatchStage::Saving(AfterSave::Fail(error.clone()));
                BatchCall::Save { status, error: Some(error) }
            },
            BatchStage::AskingAtEnd => {
                match reply {
                    BatchReply::Cancelled(true) => self.cancel(),
                    _ => {
                        self.stage = BatchStage::Saving(AfterSave::Finish);
                        BatchCall::Save { status: BatchStatus::Complete, error: None }
                    },
                }
            },
            BatchStage::Finished => BatchCall::IsCancelled,
        }
    }
}

/// A batch reports completion only when every part was validated, and never
/// runs a part after one failed or cancellation was seen.
pub proof fn completed_batches_are_whole(m: BatchModel, reply: BatchReply, records: Seq<PartRecord>)
    requires
        m.well_formed(),
        m.expects(reply),
        records_after(m.records, records, reply),
    ensures
        ({
            let (n, call) = m.resumed(reply, records);
            &&& call is Completed ==> n.records.len() == PARTS && n.all_validated()
            &&& call is RunPart ==> n.all_validated() && reply == BatchReply::Cancelled(false)
            &&& call == (BatchCallModel::Save { status: BatchStatus::Complete, error: None })
                ==> n.records.len() == PARTS && n.all_validated()
        }),
{
}

} // verus!
