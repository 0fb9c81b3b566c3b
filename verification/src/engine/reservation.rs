//! Reservation of paged KV for one accelerator step, as a conversation with the
//! allocator and the scheduler: every reply yields the next call, and a failure
//! anywhere undoes the reservation entry by entry, last first.
use crate::engine::types::{
    kv_error, paged_kv_error, refused, ChainView, EngineError, KvChainHandle, PagedKvError, Refusal,
};
use vstd::prelude::*;

verus! {

/// One request of a planned step: how many tokens its chain must cover, and
/// the chain, once known.
#[derive(Clone, Copy, Debug, PartialEq, Eq, Structural)]
pub struct PlannedChain {
    pub req_id: u64,
    pub context_len: u32,
    pub chain: Option<KvChainHandle>,
}

/// What it takes to undo one request's part of a reservation.
#[derive(Clone, Copy, Debug, PartialEq, Eq, Structural)]
pub struct ReservationEntry {
    pub req_id: u64,
    pub handle: KvChainHandle,
    pub previous_token_len: u32,
    pub newly_allocated: bool,
}

/// What a reservation waits for.
#[derive(Clone, Copy, Debug, PartialEq, Eq, Structural)]
pub enum Stage {
    Owner,
    Allocation,
    Viewing { handle: KvChainHandle, newly_allocated: bool },
    BoundChain { handle: KvChainHandle },
    Binding { handle: KvChainHandle },
    Appending,
    Releasing { error: EngineError },
    Unbinding { error: EngineError },
    Truncating { error: EngineError },
    Finished,
}

/// A call that the host performs for a reservation.
#[derive(Clone, Copy, Debug, PartialEq, Eq, Structural)]
pub enum KvCall {
    /// Ask the allocator for the chain that a request owns.
    ChainForOwner { req_id: u64 },
    /// Allocate an empty chain.
    Allocate { req_id: u64 },
    /// Look a chain up.
    View { handle: KvChainHandle },
    /// Ask the scheduler for the chain bound to a request.
    BoundChain { req_id: u64 },
    /// Bind a chain to a request in the scheduler.
    Bind { req_id: u64, handle: KvChainHandle },
    /// Extend a chain by a number of tokens.
    Append { handle: KvChainHandle, tokens: u32 },
    /// Undo: release a chain; failures are ignored.
    Release { handle: KvChainHandle },
    /// Undo: unbind a chain in the scheduler; failures are ignored.
    Unbind { req_id: u64, handle: KvChainHandle },
    /// Undo: shorten a chain; failures are ignored.
    Truncate { handle: KvChainHandle, tokens: u32 },
    /// Every request is covered.
    Reserved,
    /// The reservation failed and is undone.
    Refused { error: EngineError },
}

/// What the host answers.
#[derive(Clone, Copy, Debug, PartialEq, Eq)]
pub enum KvReply {
    Chain(Option<KvChainHandle>),
    Allocated(Result<KvChainHandle, PagedKvError>),
    Viewed(Result<ChainView, PagedKvError>),
    Bound(bool),
    Appended(Result<(), PagedKvError>),
    Undone,
}

/// The state of a reservation.
#[derive(Debug)]
pub struct KvReservation {
    rows: Vec<PlannedChain>,
    entries: Vec<ReservationEntry>,
    index: usize,
    stage: Stage,
}

/// A reservation as mathematical values.
pub struct ReservationModel {
    pub rows: Seq<PlannedChain>,
    pub entries: Seq<ReservationEntry>,
    pub index: int,
    pub stage: Stage,
}

impl View for KvReservation {
    type V = ReservationModel;

    closed spec fn view(&self) -> ReservationModel {
        ReservationModel {
            rows: self.rows@,
            entries: self.entries@,
            index: self.index as int,
            stage: self.stage,
        }
    }
}

impl ReservationModel {
    pub open spec fn at_stage(self, stage: Stage) -> ReservationModel {
        ReservationModel { stage, ..self }
    }

    /// The row in progress exists while the reservation moves forward, and an
    /// entry to undo exists while it is being undone.
    pub open spec fn well_formed(self) -> bool {
        &&& 0 <= self.index <= self.rows.len()
        &&& match self.stage {
            Stage::Finished => true,
            Stage::Releasing { .. } | Stage::Unbinding { .. } | Stage::Truncating { .. } =>
                self.entries.len() > 0,
            Stage::BoundChain { handle } | Stage::Binding { handle } => self.index < self.rows.len()
                && self.entries.len() > 0 && self.entries.last().handle == handle
                && self.entries.last().req_id == self.rows[self.index].req_id,
            Stage::Appending => self.index < self.rows.len() && self.entries.len() > 0,
            _ => self.index < self.rows.len(),
        }
    }

    /// Whether a reply answers the call that was last made.
    pub open spec fn expects(self, reply: KvReply) -> bool {
        match self.stage {
            Stage::Owner => reply is Chain,
            Stage::Allocation => reply is Allocated,
            Stage::Viewing { .. } => reply is Viewed,
            Stage::BoundChain { .. } => reply is Chain,
            Stage::Binding { .. } => reply is Bound,
            Stage::Appending => reply is Appended,
            Stage::Releasing { .. } | Stage::Unbinding { .. } | Stage::Truncating { .. } =>
                reply is Undone,
            Stage::Finished => false,
        }
    }

    /// The call that starts the row at `index`, or ends the reservation.
    pub open spec fn row_started(self) -> (ReservationModel, KvCall) {
        if self.index >= self.rows.len() {
            (self.at_stage(Stage::Finished), KvCall::Reserved)
        } else {
            match self.rows[self.index].chain {
                Some(handle) => (
                    self.at_stage(Stage::Viewing { handle, newly_allocated: false }),
                    KvCall::View { handle },
                ),
                None => (
                    self.at_stage(Stage::Owner),
                    KvCall::ChainForOwner { req_id: self.rows[self.index].req_id },
                ),
            }
        }
    }

    pub open spec fn row_finished(self) -> (ReservationModel, KvCall) {
        (ReservationModel { index: self.index + 1, ..self }).row_started()
    }

    /// The call that undoes the last entry, or reports the failure.
    pub open spec fn undoing(self, error: EngineError) -> (ReservationModel, KvCall) {
        if self.entries.len() == 0 {
            (self.at_stage(Stage::Finished), KvCall::Refused { error })
        } else if self.entries.last().newly_allocated {
            (
                self.at_stage(Stage::Releasing { error }),
                KvCall::Release { handle: self.entries.last().handle },
            )
        } else {
            (
                self.at_stage(Stage::Truncating { error }),
                KvCall::Truncate {
                    handle: self.entries.last().handle,
                    tokens: self.entries.last().previous_token_len,
                },
            )
        }
    }

    pub open spec fn undone(self, error: EngineError) -> (ReservationModel, KvCall) {
        (ReservationModel { entries: self.entries.drop_last(), ..self }).undoing(error)
    }

    /// The row's chain is written into the plan and extended where it is short.
    pub open spec fn covered(self, handle: KvChainHandle) -> (ReservationModel, KvCall) {
        let row = self.rows[self.index];
        let filled = ReservationModel {
            rows: self.rows.update(self.index, PlannedChain { chain: Some(handle), ..row }),
            ..self
        };
        if self.entries.last().previous_token_len < row.context_len {
            (
                filled.at_stage(Stage::Appending),
                KvCall::Append {
                    handle,
                    tokens: (row.context_len - self.entries.last().previous_token_len) as u32,
                },
            )
        } else {
            filled.row_finished()
        }
    }

    /// The state and the call that follow a reply.
    pub open spec fn resumed(self, reply: KvReply) -> (ReservationModel, KvCall) {
        let req_id = self.rows[self.index].req_id;
        match (self.stage, reply) {
            (Stage::Owner, KvReply::Chain(Some(handle))) => (
                self.at_stage(Stage::Viewing { handle, newly_allocated: false }),
                KvCall::View { handle },
            ),
            (Stage::Owner, KvReply::Chain(None)) => (
                self.at_stage(Stage::Allocation),
                KvCall::Allocate { req_id },
            ),
            (Stage::Allocation, KvReply::Allocated(Ok(handle))) => (
                self.at_stage(Stage::Viewing { handle, newly_allocated: true }),
                KvCall::View { handle },
            ),
            (Stage::Allocation, KvReply::Allocated(Err(e))) => self.undoing(
                kv_error(e, Some(req_id)),
            ),
            (Stage::Viewing { handle, newly_allocated }, KvReply::Viewed(Ok(view))) => {
                if view.owner != req_id {
                    self.undoing(refused(Some(req_id), Refusal::OwnerMismatch))
                } else {
                    let entry = ReservationEntry {
                        req_id,
                        handle,
                        previous_token_len: view.token_len,
                        newly_allocated,
                    };
                    (
                        ReservationModel {
                            entries: self.entries.push(entry),
                            stage: Stage::BoundChain { handle },
                            ..self
                        },
                        KvCall::BoundChain { req_id },
                    )
                }
            },
            (Stage::Viewing { .. }, KvReply::Viewed(Err(e))) => self.undoing(
                kv_error(e, Some(req_id)),
            ),
            (Stage::BoundChain { handle }, KvReply::Chain(bound)) => {
                if bound == Some(handle) {
                    self.covered(handle)
                } else {
                    (
                        self.at_stage(Stage::Binding { handle }),
                        KvCall::Bind { req_id, handle },
                    )
                }
            },
            (Stage::Binding { handle }, KvReply::Bound(true)) => self.covered(handle),
            (Stage::Binding { .. }, KvReply::Bound(false)) => self.undoing(
                refused(Some(req_id), Refusal::BindFailed),
            ),
            (Stage::Appending, KvReply::Appended(Ok(_))) => self.row_finished(),
            (Stage::Appending, KvReply::Appended(Err(e))) => self.undoing(
                kv_error(e, Some(req_id)),
            ),
            (Stage::Releasing { error }, _) => (
                self.at_stage(Stage::Unbinding { error }),
                KvCall::Unbind {
                    req_id: self.entries.last().req_id,
                    handle: self.entries.last().handle,
                },
            ),
            (Stage::Unbinding { error }, _) => self.undone(error),
            (Stage::Truncating { error }, _) => self.undone(error),
            _ => (self, KvCall::Reserved),
        }
    }
}

impl KvReservation {
    /// The reserved rows.
    pub fn into_entries(self) -> (r: Vec<ReservationEntry>)
        ensures
            r@ == self@.entries,
    {
        self.entries
    }

    /// Starts the reservation of a planned step.
    pub fn start(rows: Vec<PlannedChain>) -> (r: (KvReservation, KvCall))
        ensures
            r.0@.well_formed(),
            (r.0@, r.1) == (ReservationModel {
                rows: rows@,
                entries: Seq::empty(),
                index: 0,
                stage: Stage::Finished,
            }).row_started(),
    {
        let mut reservation = KvReservation {
            rows,
            entries: Vec::new(),
            index: 0,
            stage: Stage::Finished,
        };
        let call = reservation.start_row();
        (reservation, call)
    }

    /// Starts the undoing of a reservation whose step could not be launched or
    /// collected.
    pub fn roll_back(entries: Vec<ReservationEntry>, error: EngineError) -> (r: (
        KvReservation,
        KvCall,
    ))
        ensures
            r.0@.well_formed(),
            (r.0@, r.1) == (ReservationModel {
                rows: Seq::empty(),
                entries: entries@,
                index: 0,
                stage: Stage::Finished,
            }).undoing(error),
    {
        let mut reservation = KvReservation {
            rows: Vec::new(),
            entries,
            index: 0,
            stage: Stage::Finished,
        };
        let call = reservation.undo(error);
        (reservation, call)
    }

    /// Takes the host's reply and returns its next call.
    pub fn resume(&mut self, reply: KvReply) -> (call: KvCall)
        requires
            old(self)@.well_formed(),
            old(self)@.expects(reply),
        ensures
            final(self)@.well_formed(),
            (final(self)@, call) == old(self)@.resumed(reply),
    {
        match self.stage {
            Stage::Owner => {
                let req_id: u64 = self.rows[self.index].req_id;
                match reply {
                    KvReply::Chain(Some(handle)) => {
                        self.stage = Stage::Viewing { handle, newly_allocated: false };
                        KvCall::View { handle }
                    },
                    _ => {
                        self.stage = Stage::Allocation;
                        KvCall::Allocate { req_id }
                    },
                }
            },
            Stage::Allocation => {
                let req_id: u64 = self.rows[self.index].req_id;
                match reply {
                    KvReply::Allocated(Ok(handle)) => {
                        self.stage = Stage::Viewing { handle, newly_allocated: true };
                        KvCall::View { handle }
                    },
                    KvReply::Allocated(Err(e)) => self.undo(paged_kv_error(e, Some(req_id))),
                    _ => KvCall::Reserved,
                }
            },
            Stage::Viewing { handle, newly_allocated } => {
                let req_id: u64 = self.rows[self.index].req_id;
                match reply {
                    KvReply::Viewed(Ok(view)) => {
                        if view.owner != req_id {
                            return self.undo(
                                EngineError::InvalidTransition {
                                    reason: Refusal::OwnerMismatch,
                                    req_id: Some(req_id),
                                },
                            );
                        }
                        self.entries.push(
                            ReservationEntry {
                                req_id,
                                handle,
                                previous_token_len: view.token_len,
                                newly_allocated,
                            },
                        );
                        self.stage = Stage::BoundChain { handle };
                        KvCall::BoundChain { req_id }
                    },
                    KvReply::Viewed(Err(e)) => self.undo(paged_kv_error(e, Some(req_id))),
                    _ => KvCall::Reserved,
                }
            },
            Stage::BoundChain { handle } => {
                let req_id: u64 = self.rows[self.index].req_id;
                let bound = match reply {
                    KvReply::Chain(Some(other)) => other == handle,
                    _ => false,
                };
                if bound {
                    self.cover(handle)
                } else {
                    self.stage = Stage::Binding { handle };
                    KvCall::Bind { req_id, handle }
                }
            },
            Stage::Binding { handle } => {
                let req_id: u64 = self.rows[self.index].req_id;
                match reply {
                    KvReply::Bound(true) => self.cover(handle),
                    _ => self.undo(
                        EngineError::InvalidTransition {
                            reason: Refusal::BindFailed,
                            req_id: Some(req_id),
                        },
                    ),
                }
            },
            Stage::Appending => {
                let req_id: u64 = self.rows[self.index].req_id;
                match reply {
                    KvReply::Appended(Ok(_)) => self.finish_row(),
                    KvReply::Appended(Err(e)) => self.undo(paged_kv_error(e, Some(req_id))),
                    _ => KvCall::Reserved,
                }
            },
            Stage::Releasing { error } => {
                let entry = self.entries[self.entries.len() - 1];
                self.stage = Stage::Unbinding { error };
                KvCall::Unbind { req_id: entry.req_id, handle: entry.handle }
            },
            Stage::Unbinding { error } => {
                let _ = self.entries.pop();
                self.undo(error)
            },
            Stage::Truncating { error } => {
                let _ = self.entries.pop();
                self.undo(error)
            },
            Stage::Finished => KvCall::Reserved,
        }
    }

    fn start_row(&mut self) -> (call: KvCall)
        requires
            old(self)@.index <= old(self)@.rows.len(),
        ensures
            final(self)@.well_formed(),
            (final(self)@, call) == old(self)@.row_started(),
    {
        if self.index >= self.rows.len() {
            self.stage = Stage::Finished;
            return KvCall::Reserved;
        }
        let row = self.rows[self.index];
        match row.chain {
            Some(handle) => {
                self.stage = Stage::Viewing { handle, newly_allocated: false };
                KvCall::View { handle }
            },
            None => {
                self.stage = Stage::Owner;
                KvCall::ChainForOwner { req_id: row.req_id }
            },
        }
    }

    fn finish_row(&mut self) -> (call: KvCall)
        requires
            old(self)@.index < old(self)@.rows.len(),
        ensures
            final(self)@.well_formed(),
            (final(self)@, call) == old(self)@.row_finished(),
    {
        let count: usize = self.rows.len();
        assert(self.index < count);
        self.index = self.index + 1;
        self.start_row()
    }

    fn undo(&mut self, error: EngineError) -> (call: KvCall)
        requires
            old(self)@.index <= old(self)@.rows.len(),
        ensures
            final(self)@.well_formed(),
            (final(self)@, call) == old(self)@.undoing(error),
    {
        if self.entries.len() == 0 {
            self.stage = Stage::Finished;
            return KvCall::Refused { error };
        }
        let entry = self.entries[self.entries.len() - 1];
        if entry.newly_allocated {
            self.stage = Stage::Releasing { error };
            KvCall::Release { handle: entry.handle }
        } else {
            self.stage = Stage::Truncating { error };
            KvCall::Truncate { handle: entry.handle, tokens: entry.previous_token_len }
        }
    }

    fn cover(&mut self, handle: KvChainHandle) -> (call: KvCall)
        requires
            old(self)@.index < old(self)@.rows.len(),
            old(self)@.entries.len() > 0,
        ensures
            final(self)@.well_formed(),
            (final(self)@, call) == old(self)@.covered(handle),
    {
        let row = self.rows[self.index];
        let previous: u32 = self.entries[self.entries.len() - 1].previous_token_len;
        self.rows.set(
            self.index,
            PlannedChain {
                req_id: row.req_id,
                context_len: row.context_len,
                chain: Some(handle),
            },
        );
        if previous < row.context_len {
            self.stage = Stage::Appending;
            KvCall::Append { handle, tokens: row.context_len - previous }
        } else {
            self.finish_row()
        }
    }
}

} // verus!
