//! A walk over the constant programs of one provisioning part: which graphs it
//! visits, under which compile limit, and how each outcome is recorded. The
//! host loads the graphs; every reply yields the next call.
use crate::ane::shape::{projection_rows, query_width, HEAD_ROWS, LAYERS, VOCAB};
use crate::ane::weight_plan::{AneProgramCachePolicy, StaticFfnPrecision};
use crate::text::{cat3, cat4, decimal, decimal_text, same};
use vstd::prelude::*;

verus! {

/// Each provisioning part fits in a fresh process with at most 48 explicit
/// compiler calls. Entries are reused when present; one graph is held at a time.
#[derive(Clone, Copy, Debug, PartialEq, Eq, Structural)]
pub enum AneStaticCachePart {
    QueryKeyValue,
    /// Forty INT8 sliding projections and the eight original FP16 global projections.
    QueryKeyValueSlidingInt8,
    QueryKeyValueSlidingInt8Tiles4,
    Output,
    FeedForward,
    FeedForwardLut4,
    FeedForwardInt8,
    FeedForwardInt8Stacked,
    FeedForwardInt8Chunk4,
    FeedForwardInt8Down4,
    FeedForwardInt8Interleaved,
    VocabularyAndAttention,
    AttentionTransposeFlags,
}

/// Availability observed by a strict load, followed by owner destruction.
/// Source staging may be recreated, but no compiler call or evaluation occurs.
#[derive(Clone, Debug)]
pub struct AneStaticCacheEntry {
    pub name: String,
    pub available: bool,
}

/// The name under which a part's layers are recorded.
pub open spec fn part_label(part: AneStaticCachePart) -> Seq<char> {
    match part {
        AneStaticCachePart::QueryKeyValue => "QueryKeyValue"@,
        AneStaticCachePart::QueryKeyValueSlidingInt8 => "QueryKeyValueSlidingInt8"@,
        AneStaticCachePart::QueryKeyValueSlidingInt8Tiles4 => "QueryKeyValueSlidingInt8Tiles4"@,
        AneStaticCachePart::Output => "Output"@,
        AneStaticCachePart::FeedForward => "FeedForward"@,
        AneStaticCachePart::FeedForwardLut4 => "FeedForwardLut4"@,
        AneStaticCachePart::FeedForwardInt8 => "FeedForwardInt8"@,
        AneStaticCachePart::FeedForwardInt8Stacked => "FeedForwardInt8Stacked"@,
        AneStaticCachePart::FeedForwardInt8Chunk4 => "FeedForwardInt8Chunk4"@,
        AneStaticCachePart::FeedForwardInt8Down4 => "FeedForwardInt8Down4"@,
        AneStaticCachePart::FeedForwardInt8Interleaved => "FeedForwardInt8Interleaved"@,
        AneStaticCachePart::VocabularyAndAttention => "VocabularyAndAttention"@,
        AneStaticCachePart::AttentionTransposeFlags => "AttentionTransposeFlags"@,
    }
}

impl AneStaticCachePart {
    pub fn label(self) -> (r: &'static str)
        ensures
            r@ == part_label(self),
    {
        match self {
            AneStaticCachePart::QueryKeyValue => "QueryKeyValue",
            AneStaticCachePart::QueryKeyValueSlidingInt8 => "QueryKeyValueSlidingInt8",
            AneStaticCachePart::QueryKeyValueSlidingInt8Tiles4 => "QueryKeyValueSlidingInt8Tiles4",
            AneStaticCachePart::Output => "Output",
            AneStaticCachePart::FeedForward => "FeedForward",
            AneStaticCachePart::FeedForwardLut4 => "FeedForwardLut4",
            AneStaticCachePart::FeedForwardInt8 => "FeedForwardInt8",
            AneStaticCachePart::FeedForwardInt8Stacked => "FeedForwardInt8Stacked",
            AneStaticCachePart::FeedForwardInt8Chunk4 => "FeedForwardInt8Chunk4",
            AneStaticCachePart::FeedForwardInt8Down4 => "FeedForwardInt8Down4",
            AneStaticCachePart::FeedForwardInt8Interleaved => "FeedForwardInt8Interleaved",
            AneStaticCachePart::VocabularyAndAttention => "VocabularyAndAttention",
            AneStaticCachePart::AttentionTransposeFlags => "AttentionTransposeFlags",
        }
    }
}

/// One graph of a part.
#[derive(Clone, Copy, Debug, PartialEq, Eq, Structural)]
pub enum CacheGraph {
    AttentionTranspose { sliding: bool },
    Attention { sliding: bool },
    Vocabulary { first: usize },
    Layer { index: usize },
}

/// How many graphs a part holds.
pub open spec fn graph_count(part: AneStaticCachePart) -> nat {
    match part {
        AneStaticCachePart::AttentionTransposeFlags => 2,
        AneStaticCachePart::VocabularyAndAttention => 2 + VOCAB as nat / HEAD_ROWS as nat,
        _ => LAYERS as nat,
    }
}

/// The graph at a position of a part.
pub open spec fn graph_at(part: AneStaticCachePart, k: int) -> CacheGraph {
    match part {
        AneStaticCachePart::AttentionTransposeFlags => CacheGraph::AttentionTranspose {
            sliding: k == 0,
        },
        AneStaticCachePart::VocabularyAndAttention => if k < 2 {
            CacheGraph::Attention { sliding: k == 0 }
        } else {
            CacheGraph::Vocabulary { first: ((k - 2) * HEAD_ROWS) as usize }
        },
        _ => CacheGraph::Layer { index: k as usize },
    }
}

/// The name under which a graph is recorded.
pub open spec fn graph_name(part: AneStaticCachePart, graph: CacheGraph) -> Seq<char> {
    match graph {
        CacheGraph::AttentionTranspose { sliding } => if sliding {
            "attention-transpose/sliding"@
        } else {
            "attention-transpose/global"@
        },
        CacheGraph::Attention { sliding } => if sliding {
            "attention/sliding"@
        } else {
            "attention/global"@
        },
        CacheGraph::Vocabulary { first } => "vocabulary/"@ + decimal(first as nat),
        CacheGraph::Layer { index } => part_label(part) + "/layer/"@ + decimal(index as nat),
    }
}

/// Inspection never compiles; provisioning compiles at most one program for
/// each graph of the part.
pub open spec fn visit_policy(part: AneStaticCachePart, inspect: bool) -> AneProgramCachePolicy {
    if inspect {
        AneProgramCachePolicy::RequireExisting
    } else {
        AneProgramCachePolicy::ReuseOrCompileUpTo(graph_count(part) as usize)
    }
}

/// The program of one layer of a part.
#[derive(Clone, Copy, Debug, PartialEq, Eq, Structural)]
pub enum LayerProgram {
    Qkv { rows: usize, int8: bool, tiles4: bool },
    Output { width: usize },
    Ffn { precision: StaticFfnPrecision },
}

/// The program that a part compiles for a sliding or a global layer.
pub open spec fn layer_program_of(part: AneStaticCachePart, sliding: bool) -> LayerProgram {
    match part {
        AneStaticCachePart::QueryKeyValue => LayerProgram::Qkv {
            rows: projection_rows(sliding) as usize,
            int8: false,
            tiles4: false,
        },
        AneStaticCachePart::QueryKeyValueSlidingInt8 => LayerProgram::Qkv {
            rows: projection_rows(sliding) as usize,
            int8: sliding,
            tiles4: false,
        },
        AneStaticCachePart::QueryKeyValueSlidingInt8Tiles4 => LayerProgram::Qkv {
            rows: projection_rows(sliding) as usize,
            int8: sliding,
            tiles4: sliding,
        },
        AneStaticCachePart::Output => LayerProgram::Output {
            width: query_width(sliding) as usize,
        },
        AneStaticCachePart::FeedForwardLut4 => LayerProgram::Ffn {
            precision: StaticFfnPrecision::Lut4,
        },
        AneStaticCachePart::FeedForwardInt8 => LayerProgram::Ffn {
            precision: StaticFfnPrecision::Int8,
        },
        AneStaticCachePart::FeedForwardInt8Stacked => LayerProgram::Ffn {
            precision: StaticFfnPrecision::Int8Stacked,
        },
        AneStaticCachePart::FeedForwardInt8Chunk4 => LayerProgram::Ffn {
            precision: StaticFfnPrecision::Int8Chunk4,
        },
        AneStaticCachePart::FeedForwardInt8Down4 => LayerProgram::Ffn {
            precision: StaticFfnPrecision::Int8Down4,
        },
        AneStaticCachePart::FeedForwardInt8Interleaved => LayerProgram::Ffn {
            precision: StaticFfnPrecision::Int8Interleaved,
        },
        _ => LayerProgram::Ffn { precision: StaticFfnPrecision::Fp16 },
    }
}

/// The program of one layer of a part that has one program per layer.
pub fn layer_program(part: AneStaticCachePart, sliding: bool) -> (r: LayerProgram)
    requires
        part != AneStaticCachePart::VocabularyAndAttention,
        part != AneStaticCachePart::AttentionTransposeFlags,
    ensures
        r == layer_program_of(part, sliding),
{
    let rows: usize = if sliding {
        8192
    } else {
        8704
    };
    let width: usize = if sliding {
        4096
    } else {
        8192
    };
    match part {
        AneStaticCachePart::QueryKeyValue => LayerProgram::Qkv { rows, int8: false, tiles4: false },
        AneStaticCachePart::QueryKeyValueSlidingInt8 => LayerProgram::Qkv {
            rows,
            int8: sliding,
            tiles4: false,
        },
        AneStaticCachePart::QueryKeyValueSlidingInt8Tiles4 => LayerProgram::Qkv {
            rows,
            int8: sliding,
            tiles4: sliding,
        },
        AneStaticCachePart::Output => LayerProgram::Output { width },
        AneStaticCachePart::FeedForwardLut4 => LayerProgram::Ffn {
            precision: StaticFfnPrecision::Lut4,
        },
        AneStaticCachePart::FeedForwardInt8 => LayerProgram::Ffn {
            precision: StaticFfnPrecision::Int8,
        },
        AneStaticCachePart::FeedForwardInt8Stacked => LayerProgram::Ffn {
            precision: StaticFfnPrecision::Int8Stacked,
        },
        AneStaticCachePart::FeedForwardInt8Chunk4 => LayerProgram::Ffn {
            precision: StaticFfnPrecision::Int8Chunk4,
        },
        AneStaticCachePart::FeedForwardInt8Down4 => LayerProgram::Ffn {
            precision: StaticFfnPrecision::Int8Down4,
        },
        AneStaticCachePart::FeedForwardInt8Interleaved => LayerProgram::Ffn {
            precision: StaticFfnPrecision::Int8Interleaved,
        },
        _ => LayerProgram::Ffn { precision: StaticFfnPrecision::Fp16 },
    }
}

/// INT8 QKV is admitted for the 8192-row sliding projection only.
pub fn load_static_qkv(rows: usize, int8: bool) -> (r: Result<(), String>)
    ensures
        match r {
            Ok(_) => !int8 || rows == 8192,
            Err(e) => int8 && rows != 8192 && e@
                == "INT8 QKV candidate only supports the 8192-row sliding projection"@,
        },
{
    if int8 && rows != 8192 {
        return Err(
            "INT8 QKV candidate only supports the 8192-row sliding projection".to_owned(),
        );
    }
    Ok(())
}

/// Tiled INT8 QKV is admitted for the 8192-row sliding projection only.
pub fn load_static_qkv_tiles4(rows: usize) -> (r: Result<(), String>)
    ensures
        match r {
            Ok(_) => rows == 8192,
            Err(e) => rows != 8192 && e@
                == "tiled INT8 QKV supports only the 8192-row sliding projection"@,
        },
{
    if rows != 8192 {
        return Err("tiled INT8 QKV supports only the 8192-row sliding projection".to_owned());
    }
    Ok(())
}

/// The one error that inspection takes for absence.
pub open spec fn absent_message() -> Seq<char> {
    "ANE model is absent from the current client's compiled cache"@
}

/// What a list of entries holds.
pub open spec fn entries_model(entries: Seq<AneStaticCacheEntry>) -> Seq<(Seq<char>, bool)> {
    Seq::new(entries.len(), |i: int| (entries[i].name@, entries[i].available))
}

/// How a load is recorded: present, confirmed absent, or an error.
pub open spec fn availability(name: Seq<char>, error: Option<Seq<char>>, inspect: bool) -> Result<
    bool,
    Seq<char>,
> {
    match error {
        None => Ok(true),
        Some(e) => if inspect && e == absent_message() {
            Ok(false)
        } else {
            Err("ANE cache "@ + name + ": "@ + e)
        },
    }
}

pub open spec fn load_error(result: Result<(), String>) -> Option<Seq<char>> {
    match result {
        Ok(_) => None,
        Err(e) => Some(e@),
    }
}

/// Records the outcome of one load. Only an inspection goes on past a program
/// that is confirmed absent; any other failure ends the visit.
pub fn record_cache_entry(
    entries: &mut Vec<AneStaticCacheEntry>,
    name: String,
    result: Result<(), String>,
    inspect: bool,
) -> (r: Result<(), String>)
    ensures
        match (availability(name@, load_error(result), inspect), r) {
            (Ok(available), Ok(_)) => entries_model(final(entries)@) == entries_model(
                old(entries)@,
            ).push((name@, available)),
            (Err(message), Err(e)) => e@ == message && final(entries)@ == old(entries)@,
            _ => false,
        },
{
    let available = match result {
        Ok(_) => true,
        Err(error) => {
            if inspect && same(
                error.as_str(),
                "ANE model is absent from the current client's compiled cache",
            ) {
                false
            } else {
                return Err(cat4("ANE cache ", name.as_str(), ": ", error.as_str()));
            }
        },
    };
    let ghost before = entries@;
    let ghost text = name@;
    entries.push(AneStaticCacheEntry { name, available });
    assert(entries_model(entries@) =~= entries_model(before).push((text, available)));
    Ok(())
}

/// Where a visit asks whether to stop.
#[derive(Clone, Copy, Debug, PartialEq, Eq, Structural)]
pub enum StopPoint {
    Start,
    Graph(usize),
    End,
}

/// What a visit waits for.
#[derive(Clone, Copy, Debug, PartialEq, Eq, Structural)]
pub enum VisitStage {
    Stopping(StopPoint),
    Validating,
    Preparing(usize),
    Finished,
}

/// What the host does for a visit.
#[derive(Debug)]
pub enum CacheCall {
    /// Answer whether the visit should stop. No graph is loaded now.
    ShouldStop,
    /// Validate the architecture and the tensors of the checkpoint.
    Validate { capacity: usize },
    /// Load one graph under a policy and drop it.
    Prepare { graph: CacheGraph, policy: AneProgramCachePolicy },
    /// Every graph was visited; the entries are complete.
    Completed,
    Failed { error: String },
}

/// What became of one graph.
#[derive(Debug)]
pub enum GraphOutcome {
    Loaded,
    /// The program could not be loaded.
    Refused(String),
    /// The program's weights could not be read.
    Unreadable(String),
}

#[derive(Debug)]
pub enum CacheReply {
    Stop(bool),
    Validated(Result<(), String>),
    Prepared(GraphOutcome),
}

/// A visit in progress.
#[derive(Debug)]
pub struct CacheVisit {
    part: AneStaticCachePart,
    capacity: usize,
    inspect: bool,
    stoppable: bool,
    entries: Vec<AneStaticCacheEntry>,
    stage: VisitStage,
}

/// A visit as mathematical values.
pub struct VisitModel {
    pub part: AneStaticCachePart,
    pub capacity: usize,
    pub inspect: bool,
    pub stoppable: bool,
    pub entries: Seq<(Seq<char>, bool)>,
    pub stage: VisitStage,
}

/// A call with its message as text.
pub enum CacheCallModel {
    ShouldStop,
    Validate { capacity: usize },
    Prepare { graph: CacheGraph, policy: AneProgramCachePolicy },
    Completed,
    Failed { error: Seq<char> },
}

impl View for CacheCall {
    type V = CacheCallModel;

    open spec fn view(&self) -> CacheCallModel {
        match self {
            CacheCall::ShouldStop => CacheCallModel::ShouldStop,
            CacheCall::Validate { capacity } => CacheCallModel::Validate { capacity: *capacity },
            CacheCall::Prepare { graph, policy } => CacheCallModel::Prepare {
                graph: *graph,
                policy: *policy,
            },
            CacheCall::Completed => CacheCallModel::Completed,
            CacheCall::Failed { error } => CacheCallModel::Failed { error: error@ },
        }
    }
}

impl View for CacheVisit {
    type V = VisitModel;

    closed spec fn view(&self) -> VisitModel {
        VisitModel {
            part: self.part,
            capacity: self.capacity,
            inspect: self.inspect,
            stoppable: self.stoppable,
            entries: entries_model(self.entries@),
            stage: self.stage,
        }
    }
}

impl VisitModel {
    pub open spec fn fresh(
        part: AneStaticCachePart,
        capacity: usize,
        inspect: bool,
        stoppable: bool,
    ) -> VisitModel {
        VisitModel {
            part,
            capacity,
            inspect,
            stoppable,
            entries: Seq::empty(),
            stage: VisitStage::Finished,
        }
    }

    pub open spec fn at_stage(self, stage: VisitStage) -> VisitModel {
        VisitModel { stage, ..self }
    }

    /// The position of a visit: how many graphs it has recorded.
    pub open spec fn well_formed(self) -> bool {
        match self.stage {
            VisitStage::Preparing(k) => k == self.entries.len() && k < graph_count(self.part),
            VisitStage::Stopping(StopPoint::Graph(k)) => k == self.entries.len() && k < graph_count(
                self.part,
            ),
            VisitStage::Stopping(StopPoint::End) => self.entries.len() == graph_count(self.part),
            VisitStage::Finished => true,
            _ => self.entries.len() == 0,
        }
    }

    pub open spec fn expects(self, reply: CacheReply) -> bool {
        match self.stage {
            VisitStage::Stopping(_) => reply is Stop,
            VisitStage::Validating => reply is Validated,
            VisitStage::Preparing(_) => reply is Prepared,
            VisitStage::Finished => false,
        }
    }

    pub open spec fn past(self, point: StopPoint) -> (VisitModel, CacheCallModel) {
        match point {
            StopPoint::Start => (
                self.at_stage(VisitStage::Validating),
                CacheCallModel::Validate { capacity: self.capacity },
            ),
            StopPoint::Graph(k) => (
                self.at_stage(VisitStage::Preparing(k)),
                CacheCallModel::Prepare {
                    graph: graph_at(self.part, k as int),
                    policy: visit_policy(self.part, self.inspect),
                },
            ),
            StopPoint::End => (self.at_stage(VisitStage::Finished), CacheCallModel::Completed),
        }
    }

    pub open spec fn arrived(self, point: StopPoint) -> (VisitModel, CacheCallModel) {
        if self.stoppable {
            (self.at_stage(VisitStage::Stopping(point)), CacheCallModel::ShouldStop)
        } else {
            self.past(point)
        }
    }

    pub open spec fn ended(self, error: Seq<char>) -> (VisitModel, CacheCallModel) {
        (self.at_stage(VisitStage::Finished), CacheCallModel::Failed { error })
    }

    /// On to the next graph, or to the end after the last.
    pub open spec fn onward(self) -> (VisitModel, CacheCallModel) {
        if self.entries.len() < graph_count(self.part) {
            self.arrived(StopPoint::Graph(self.entries.len() as usize))
        } else {
            self.arrived(StopPoint::End)
        }
    }

    /// A recorded load goes onward; an error ends the visit.
    pub open spec fn recorded(self, error: Option<Seq<char>>) -> (VisitModel, CacheCallModel) {
        let name = graph_name(self.part, graph_at(self.part, self.entries.len() as int));
        match availability(name, error, self.inspect) {
            Ok(available) => (VisitModel {
                entries: self.entries.push((name, available)),
                ..self
            }).onward(),
            Err(message) => self.ended(message),
        }
    }

    /// The visit and the call that follow a reply.
    pub open spec fn resumed(self, reply: CacheReply) -> (VisitModel, CacheCallModel) {
        match (self.stage, reply) {
            (VisitStage::Stopping(point), CacheReply::Stop(stop)) => if stop {
                self.ended("ANE cache operation cancelled"@)
            } else {
                self.past(point)
            },
            (VisitStage::Validating, CacheReply::Validated(Ok(_))) => self.onward(),
            (VisitStage::Validating, CacheReply::Validated(Err(e))) => self.ended(e@),
            (VisitStage::Preparing(_), CacheReply::Prepared(GraphOutcome::Loaded)) => self.recorded(
                None,
            ),
            (VisitStage::Preparing(_), CacheReply::Prepared(GraphOutcome::Refused(e))) =>
                self.recorded(Some(e@)),
            (VisitStage::Preparing(_), CacheReply::Prepared(GraphOutcome::Unreadable(e))) =>
                self.ended(e@),
            _ => (self, CacheCallModel::Completed),
        }
    }
}

fn graph_at_position(part: AneStaticCachePart, k: usize) -> (r: CacheGraph)
    requires
        k < graph_count(part),
    ensures
        r == graph_at(part, k as int),
{
    match part {
        AneStaticCachePart::AttentionTransposeFlags => CacheGraph::AttentionTranspose {
            sliding: k == 0,
        },
        AneStaticCachePart::VocabularyAndAttention => {
            if k < 2 {
                CacheGraph::Attention { sliding: k == 0 }
            } else {
                CacheGraph::Vocabulary { first: (k - 2) * HEAD_ROWS }
            }
        },
        _ => CacheGraph::Layer { index: k },
    }
}

fn name_of_graph(part: AneStaticCachePart, graph: CacheGraph) -> (r: String)
    ensures
        r@ == graph_name(part, graph),
{
    match graph {
        CacheGraph::AttentionTranspose { sliding } => {
            if sliding {
                "attention-transpose/sliding".to_owned()
            } else {
                "attention-transpose/global".to_owned()
            }
        },
        CacheGraph::Attention { sliding } => {
            if sliding {
                "attention/sliding".to_owned()
            } else {
                "attention/global".to_owned()
            }
        },
        CacheGraph::Vocabulary { first } => {
            let row = decimal_text(first as u64);
            crate::text::cat2("vocabulary/", row.as_str())
        },
        CacheGraph::Layer { index } => {
            let layer = decimal_text(index as u64);
            cat3(part.label(), "/layer/", layer.as_str())
        },
    }
}

fn count_of_graphs(part: AneStaticCachePart) -> (r: usize)
    ensures
        r == graph_count(part),
{
    match part {
        AneStaticCachePart::AttentionTransposeFlags => 2,
        AneStaticCachePart::VocabularyAndAttention => 2 + VOCAB / HEAD_ROWS,
        _ => LAYERS,
    }
}

impl CacheVisit {
    /// The programs that the visit has listed.
    pub fn entries(&self) -> (r: &Vec<AneStaticCacheEntry>)
        ensures
            entries_model(r@) == self@.entries,
    {
        &self.entries
    }

    fn start(
        part: AneStaticCachePart,
        capacity: usize,
        inspect: bool,
        stoppable: bool,
    ) -> (r: (CacheVisit, CacheCall))
        ensures
            r.0@.well_formed(),
            (r.0@, r.1@) == VisitModel::fresh(part, capacity, inspect, stoppable).arrived(
                StopPoint::Start,
            ),
    {
        let mut visit = CacheVisit {
            part,
            capacity,
            inspect,
            stoppable,
            entries: Vec::new(),
            stage: VisitStage::Finished,
        };
        assert(visit@.entries =~= Seq::empty());
        let call = visit.arrive(StopPoint::Start);
        (visit, call)
    }

    fn pass(&mut self, point: StopPoint) -> (call: CacheCall)
        requires
            old(self)@.at_stage(VisitStage::Stopping(point)).well_formed(),
        ensures
            final(self)@.well_formed(),
            (final(self)@, call@) == old(self)@.past(point),
    {
        match point {
            StopPoint::Start => {
                self.stage = VisitStage::Validating;
                CacheCall::Validate { capacity: self.capacity }
            },
            StopPoint::Graph(k) => {
                self.stage = VisitStage::Preparing(k);
                let policy = if self.inspect {
                    AneProgramCachePolicy::RequireExisting
                } else {
                    AneProgramCachePolicy::ReuseOrCompileUpTo(count_of_graphs(self.part))
                };
                CacheCall::Prepare { graph: graph_at_position(self.part, k), policy }
            },
            StopPoint::End => {
                self.stage = VisitStage::Finished;
                CacheCall::Completed
            },
        }
    }

    fn arrive(&mut self, point: StopPoint) -> (call: CacheCall)
        requires
            old(self)@.at_stage(VisitStage::Stopping(point)).well_formed(),
        ensures
            final(self)@.well_formed(),
            (final(self)@, call@) == old(self)@.arrived(point),
    {
        if self.stoppable {
            self.stage = VisitStage::Stopping(point);
            CacheCall::ShouldStop
        } else {
            self.pass(point)
        }
    }

    fn go_on(&mut self) -> (call: CacheCall)
        requires
            old(self)@.entries.len() <= graph_count(old(self)@.part),
        ensures
            final(self)@.well_formed(),
            (final(self)@, call@) == old(self)@.onward(),
    {
        let done: usize = self.entries.len();
        if done < count_of_graphs(self.part) {
            self.arrive(StopPoint::Graph(done))
        } else {
            self.arrive(StopPoint::End)
        }
    }

    fn record(&mut self, k: usize, result: Result<(), String>) -> (call: CacheCall)
        requires
            k == old(self)@.entries.len(),
            k < graph_count(old(self)@.part),
        ensures
            final(self)@.well_formed(),
            (final(self)@, call@) == old(self)@.recorded(load_error(result)),
    {
        let graph = graph_at_position(self.part, k);
        let name = name_of_graph(self.part, graph);
        match record_cache_entry(&mut self.entries, name, result, self.inspect) {
            Ok(_) => self.go_on(),
            Err(error) => {
                self.stage = VisitStage::Finished;
                CacheCall::Failed { error }
            },
        }
    }

    /// Takes the host's reply and returns its next call.
    pub fn resume(&mut self, reply: CacheReply) -> (call: CacheCall)
        requires
            old(self)@.well_formed(),
            old(self)@.expects(reply),
        ensures
            final(self)@.well_formed(),
            (final(self)@, call@) == old(self)@.resumed(reply),
    {
        match self.stage {
            VisitStage::Stopping(point) => {
                match reply {
                    CacheReply::Stop(true) => {
                        self.stage = VisitStage::Finished;
                        CacheCall::Failed { error: "ANE cache operation cancelled".to_owned() }
                    },
                    _ => self.pass(point),
                }
            },
            VisitStage::Validating => {
                match reply {
                    CacheReply::Validated(Err(error)) => {
                        self.stage = VisitStage::Finished;
                        CacheCall::Failed { error }
                    },
                    _ => self.go_on(),
                }
            },
            VisitStage::Preparing(k) => {
                match reply {
                    CacheReply::Prepared(GraphOutcome::Loaded) => self.record(k, Ok(())),
                    CacheReply::Prepared(GraphOutcome::Refused(error)) => self.record(
                        k,
                        Err(error),
                    ),
                    CacheReply::Prepared(GraphOutcome::Unreadable(error)) => {
                        self.stage = VisitStage::Finished;
                        CacheCall::Failed { error }
                    },
                    _ => CacheCall::Completed,
                }
            },
            VisitStage::Finished => CacheCall::Completed,
        }
    }

    /// How many programs a completed visit found or compiled.
    pub fn visited(&self) -> (r: usize)
        ensures
            r == self@.entries.len(),
    {
        self.entries.len()
    }
}

/// Provisions a part at the smaller qualified capacity, without a way to stop.
pub fn provision_static_cache(part: AneStaticCachePart) -> (r: (CacheVisit, CacheCall))
    ensures
        r.0@.well_formed(),
        (r.0@, r.1@) == VisitModel::fresh(part, 64, false, false).arrived(StopPoint::Start),
{
    provision_static_cache_with_capacity(part, 64)
}

/// Provisions a part without a way to stop.
pub fn provision_static_cache_with_capacity(part: AneStaticCachePart, capacity: usize) -> (r: (
    CacheVisit,
    CacheCall,
))
    ensures
        r.0@.well_formed(),
        (r.0@, r.1@) == VisitModel::fresh(part, capacity, false, false).arrived(StopPoint::Start),
{
    CacheVisit::start(part, capacity, false, false)
}

/// Provisions a part. Stops between graph operations only, after any loaded
/// graph has been dropped; cancellation never interrupts one.
pub fn provision_static_cache_with_capacity_until(
    part: AneStaticCachePart,
    capacity: usize,
) -> (r: (CacheVisit, CacheCall))
    ensures
        r.0@.well_formed(),
        (r.0@, r.1@) == VisitModel::fresh(part, capacity, false, true).arrived(StopPoint::Start),
{
    CacheVisit::start(part, capacity, false, true)
}

/// Inspects a part without a way to stop.
pub fn inspect_static_cache_with_capacity(part: AneStaticCachePart, capacity: usize) -> (r: (
    CacheVisit,
    CacheCall,
))
    ensures
        r.0@.well_formed(),
        (r.0@, r.1@) == VisitModel::fresh(part, capacity, true, false).arrived(StopPoint::Start),
{
    CacheVisit::start(part, capacity, true, false)
}

/// Inspects a part: no compiler call is ever allowed.
pub fn inspect_static_cache_with_capacity_until(part: AneStaticCachePart, capacity: usize) -> (r: (
    CacheVisit,
    CacheCall,
))
    ensures
        r.0@.well_formed(),
        (r.0@, r.1@) == VisitModel::fresh(part, capacity, true, true).arrived(StopPoint::Start),
{
    CacheVisit::start(part, capacity, true, true)
}

// ---------------------------------------------------------------------------
// Laws
// ---------------------------------------------------------------------------

/// A part never needs more than 48 compiler calls, and provisioning allows
/// exactly one for each of its graphs.
pub proof fn parts_fit_one_process(part: AneStaticCachePart)
    ensures
        graph_count(part) <= 48,
        visit_policy(part, false) == AneProgramCachePolicy::ReuseOrCompileUpTo(
            graph_count(part) as usize,
        ),
        visit_policy(part, true) == AneProgramCachePolicy::RequireExisting,
{
}

/// INT8 QKV programs are requested for 8192-row projections only, so their row
/// check never refuses a layer of this architecture.
pub proof fn int8_programs_are_sliding(part: AneStaticCachePart, sliding: bool)
    ensures
        match layer_program_of(part, sliding) {
            LayerProgram::Qkv { rows, int8, tiles4 } => (int8 ==> sliding && rows == 8192) && (
            tiles4 ==> int8),
            _ => true,
        },
{
}

/// The state and the call after a series of replies.
pub open spec fn visited_after(m: VisitModel, call: CacheCallModel, replies: Seq<CacheReply>) -> (
    VisitModel,
    CacheCallModel,
)
    decreases replies.len(),
{
    if replies.len() == 0 {
        (m, call)
    } else {
        visited_after(
            m.resumed(replies[0]).0,
            m.resumed(replies[0]).1,
            replies.drop_first(),
        )
    }
}

pub open spec fn replies_fit(m: VisitModel, replies: Seq<CacheReply>) -> bool
    decreases replies.len(),
{
    replies.len() == 0 || (m.expects(replies[0]) && replies_fit(
        m.resumed(replies[0]).0,
        replies.drop_first(),
    ))
}

/// The entries recorded so far are those of the part's first graphs, in order;
/// a visit that provisions records only programs that are available.
pub open spec fn records_in_order(m: VisitModel) -> bool {
    &&& m.entries.len() <= graph_count(m.part)
    &&& forall|i: int|
        0 <= i < m.entries.len() ==> {
            &&& (#[trigger] m.entries[i]).0 == graph_name(m.part, graph_at(m.part, i))
            &&& m.inspect || m.entries[i].1
        }
}

proof fn resumed_keeps_order(m: VisitModel, reply: CacheReply)
    requires
        m.well_formed(),
        m.expects(reply),
        records_in_order(m),
    ensures
        m.resumed(reply).0.well_formed(),
        records_in_order(m.resumed(reply).0),
        m.resumed(reply).0.part == m.part,
        m.resumed(reply).0.inspect == m.inspect,
        m.resumed(reply).1 is Completed ==> m.resumed(reply).0.entries.len() == graph_count(m.part),
        match m.resumed(reply).1 {
            CacheCallModel::Prepare { policy, .. } => policy == visit_policy(m.part, m.inspect),
            _ => true,
        },
{
}

/// A completed visit has recorded every graph of its part, once and in order,
/// whatever the host replied; one that provisions has found each available.
pub proof fn completed_visits_are_complete(
    part: AneStaticCachePart,
    capacity: usize,
    inspect: bool,
    stoppable: bool,
    replies: Seq<CacheReply>,
)
    requires
        replies_fit(
            VisitModel::fresh(part, capacity, inspect, stoppable).arrived(StopPoint::Start).0,
            replies,
        ),
    ensures
        ({
            let (m0, c0) = VisitModel::fresh(part, capacity, inspect, stoppable).arrived(
                StopPoint::Start,
            );
            let (m, call) = visited_after(m0, c0, replies);
            &&& records_in_order(m)
            &&& m.part == part && m.inspect == inspect
            &&& call is Completed ==> m.entries.len() == graph_count(part)
        }),
{
    let (m0, c0) = VisitModel::fresh(part, capacity, inspect, stoppable).arrived(StopPoint::Start);
    visited_keeps_order(m0, c0, replies);
}

proof fn visited_keeps_order(m: VisitModel, call: CacheCallModel, replies: Seq<CacheReply>)
    requires
        m.well_formed(),
        records_in_order(m),
        call is Completed ==> m.entries.len() == graph_count(m.part),
        replies_fit(m, replies),
    ensures
        ({
            let (n, c) = visited_after(m, call, replies);
            &&& records_in_order(n)
            &&& n.part == m.part && n.inspect == m.inspect
            &&& c is Completed ==> n.entries.len() == graph_count(m.part)
        }),
    decreases replies.len(),
{
    if replies.len() > 0 {
        resumed_keeps_order(m, replies[0]);
        visited_keeps_order(
            m.resumed(replies[0]).0,
            m.resumed(replies[0]).1,
            replies.drop_first(),
        );
    }
}

/// A stop request is honoured wherever it is asked for, and the checkpoint is
/// not read before the first answer.
pub proof fn stopping_precedes_work(part: AneStaticCachePart, capacity: usize, inspect: bool)
    ensures
        ({
            let (m, call) = VisitModel::fresh(part, capacity, inspect, true).arrived(
                StopPoint::Start,
            );
            &&& call is ShouldStop
            &&& m.resumed(CacheReply::Stop(true)).1 == CacheCallModel::Failed {
                error: "ANE cache operation cancelled"@,
            }
        }),
{
}

} // verus!
