//! What a reservation does to the allocator's chains: a refused reservation
//! leaves them as they were, and a completed one covers every request.
use crate::engine::reservation::{
    KvCall, KvReply, PlannedChain, ReservationEntry, ReservationModel, Stage,
};
use crate::engine::decisions::{admission_begun, after_allocation, after_offer, AdmissionCall};
use crate::engine::types::{ChainView, EngineError, KvChainHandle, PagedKvError};
use vstd::prelude::*;

verus! {

/// Whether a reply is one that an allocator with these chains can give.
pub open spec fn answers(
    chains: Map<KvChainHandle, ChainView>,
    call: KvCall,
    reply: KvReply,
) -> bool {
    match (call, reply) {
        (KvCall::ChainForOwner { req_id }, KvReply::Chain(Some(h))) => chains.dom().contains(h)
            && chains[h].owner == req_id,
        (KvCall::ChainForOwner { .. }, KvReply::Chain(None)) => true,
        (KvCall::Allocate { .. }, KvReply::Allocated(Ok(h))) => !chains.dom().contains(h),
        (KvCall::Allocate { .. }, KvReply::Allocated(Err(_))) => true,
        (KvCall::View { handle }, KvReply::Viewed(Ok(v))) => chains.dom().contains(handle)
            && chains[handle] == v,
        (KvCall::View { handle }, KvReply::Viewed(Err(_))) => !chains.dom().contains(handle),
        (KvCall::BoundChain { .. }, KvReply::Chain(_)) => true,
        (KvCall::Bind { .. }, KvReply::Bound(_)) => true,
        (KvCall::Append { handle, tokens }, KvReply::Appended(Ok(_))) => chains.dom().contains(
            handle,
        ) && chains[handle].token_len + tokens <= u32::MAX,
        (KvCall::Append { .. }, KvReply::Appended(Err(_))) => true,
        (KvCall::Release { .. }, KvReply::Undone) => true,
        (KvCall::Unbind { .. }, KvReply::Undone) => true,
        (KvCall::Truncate { .. }, KvReply::Undone) => true,
        _ => false,
    }
}

/// The allocator's chains after it has answered a call.
pub open spec fn chains_after(
    chains: Map<KvChainHandle, ChainView>,
    call: KvCall,
    reply: KvReply,
) -> Map<KvChainHandle, ChainView> {
    match (call, reply) {
        (KvCall::Allocate { req_id }, KvReply::Allocated(Ok(h))) => chains.insert(
            h,
            ChainView { owner: req_id, token_len: 0 },
        ),
        (KvCall::Append { handle, tokens }, KvReply::Appended(Ok(_))) => chains.insert(
            handle,
            ChainView {
                owner: chains[handle].owner,
                token_len: (chains[handle].token_len + tokens) as u32,
            },
        ),
        (KvCall::Release { handle }, _) => chains.remove(handle),
        (KvCall::Truncate { handle, tokens }, _) => if chains.dom().contains(handle) {
            chains.insert(handle, ChainView { owner: chains[handle].owner, token_len: tokens })
        } else {
            chains
        },
        _ => chains,
    }
}

/// The chains before one entry's part of a reservation.
pub open spec fn without_entry(
    chains: Map<KvChainHandle, ChainView>,
    entry: ReservationEntry,
) -> Map<KvChainHandle, ChainView> {
    if entry.newly_allocated {
        chains.remove(entry.handle)
    } else {
        chains.insert(
            entry.handle,
            ChainView { owner: entry.req_id, token_len: entry.previous_token_len },
        )
    }
}

/// The chains before a reservation, from those after it.
pub open spec fn without_entries(
    chains: Map<KvChainHandle, ChainView>,
    entries: Seq<ReservationEntry>,
) -> Map<KvChainHandle, ChainView>
    decreases entries.len(),
{
    if entries.len() == 0 {
        chains
    } else {
        without_entries(without_entry(chains, entries.last()), entries.drop_last())
    }
}

/// The chain of each entry exists and belongs to the entry's request; a chain
/// that an entry allocated is no earlier entry's.
pub open spec fn entries_hold(
    chains: Map<KvChainHandle, ChainView>,
    entries: Seq<ReservationEntry>,
) -> bool {
    &&& forall|k: int|
        0 <= k < entries.len() ==> chains.dom().contains((#[trigger] entries[k]).handle)
            && chains[entries[k].handle].owner == entries[k].req_id
    &&& forall|j: int, k: int|
        0 <= j < k < entries.len() && (#[trigger] entries[k]).newly_allocated ==> (
        #[trigger] entries[j]).handle != entries[k].handle
}

/// A request's chain is known, is its own, and covers its context.
pub open spec fn row_covered(chains: Map<KvChainHandle, ChainView>, row: PlannedChain) -> bool {
    match row.chain {
        Some(h) => chains.dom().contains(h) && chains[h].owner == row.req_id
            && chains[h].token_len >= row.context_len,
        None => false,
    }
}

/// The call that a reservation at this stage waits for.
pub open spec fn pending(m: ReservationModel, call: KvCall) -> bool {
    match m.stage {
        Stage::Owner => call == KvCall::ChainForOwner { req_id: m.rows[m.index].req_id },
        Stage::Allocation => call == KvCall::Allocate { req_id: m.rows[m.index].req_id },
        Stage::Viewing { handle, .. } => call == KvCall::View { handle },
        Stage::BoundChain { .. } => call == KvCall::BoundChain { req_id: m.rows[m.index].req_id },
        Stage::Binding { handle } => call == KvCall::Bind {
            req_id: m.rows[m.index].req_id,
            handle,
        },
        Stage::Appending => {
            &&& m.rows[m.index].chain == Some(m.entries.last().handle)
            &&& m.entries.last().req_id == m.rows[m.index].req_id
            &&& m.entries.last().previous_token_len < m.rows[m.index].context_len
            &&& call == KvCall::Append {
                handle: m.entries.last().handle,
                tokens: (m.rows[m.index].context_len
                    - m.entries.last().previous_token_len) as u32,
            }
        },
        Stage::Releasing { .. } => m.entries.last().newly_allocated && call == KvCall::Release {
            handle: m.entries.last().handle,
        },
        Stage::Unbinding { .. } => m.entries.last().newly_allocated && call == KvCall::Unbind {
            req_id: m.entries.last().req_id,
            handle: m.entries.last().handle,
        },
        Stage::Truncating { .. } => !m.entries.last().newly_allocated && call == KvCall::Truncate {
            handle: m.entries.last().handle,
            tokens: m.entries.last().previous_token_len,
        },
        Stage::Finished => call is Reserved || call is Refused,
    }
}

pub open spec fn undo_stage(stage: Stage) -> bool {
    stage is Releasing || stage is Unbinding || stage is Truncating
}

/// A reservation that started on `start` and reached `m` on `chains`.
pub open spec fn consistent(
    start: Map<KvChainHandle, ChainView>,
    m: ReservationModel,
    call: KvCall,
    chains: Map<KvChainHandle, ChainView>,
) -> bool {
    &&& m.well_formed()
    &&& pending(m, call)
    &&& match m.stage {
        Stage::Viewing { handle, newly_allocated: true } => {
            &&& chains.dom().contains(handle)
            &&& chains[handle] == ChainView { owner: m.rows[m.index].req_id, token_len: 0 }
            &&& forall|k: int|
                0 <= k < m.entries.len() ==> (#[trigger] m.entries[k]).handle != handle
            &&& entries_hold(chains, m.entries)
            &&& without_entries(chains.remove(handle), m.entries) == start
        },
        Stage::Unbinding { .. } => {
            &&& entries_hold(chains, m.entries.drop_last())
            &&& without_entries(chains, m.entries.drop_last()) == start
        },
        Stage::BoundChain { .. } | Stage::Binding { .. } | Stage::Appending => {
            &&& entries_hold(chains, m.entries)
            &&& without_entries(chains, m.entries) == start
            &&& chains[m.entries.last().handle].token_len == m.entries.last().previous_token_len
        },
        Stage::Finished => {
            &&& entries_hold(chains, m.entries)
            &&& without_entries(chains, m.entries) == start
            &&& call is Refused ==> m.entries.len() == 0
            &&& call is Reserved ==> m.index == m.rows.len()
        },
        _ => {
            &&& entries_hold(chains, m.entries)
            &&& without_entries(chains, m.entries) == start
        },
    }
    &&& !undo_stage(m.stage) && !(call is Refused) ==> forall|j: int|
        0 <= j < m.index ==> row_covered(chains, #[trigger] m.rows[j])
}

proof fn undoing_consistent(
    start: Map<KvChainHandle, ChainView>,
    m: ReservationModel,
    chains: Map<KvChainHandle, ChainView>,
    error: EngineError,
)
    requires
        0 <= m.index <= m.rows.len(),
        entries_hold(chains, m.entries),
        without_entries(chains, m.entries) == start,
    ensures
        consistent(start, m.undoing(error).0, m.undoing(error).1, chains),
{
}

proof fn row_started_consistent(
    start: Map<KvChainHandle, ChainView>,
    m: ReservationModel,
    chains: Map<KvChainHandle, ChainView>,
)
    requires
        0 <= m.index <= m.rows.len(),
        entries_hold(chains, m.entries),
        without_entries(chains, m.entries) == start,
        forall|j: int| 0 <= j < m.index ==> row_covered(chains, #[trigger] m.rows[j]),
    ensures
        consistent(start, m.row_started().0, m.row_started().1, chains),
{
}

proof fn covered_consistent(
    start: Map<KvChainHandle, ChainView>,
    m: ReservationModel,
    chains: Map<KvChainHandle, ChainView>,
    handle: KvChainHandle,
)
    requires
        0 <= m.index < m.rows.len(),
        m.entries.len() > 0,
        m.entries.last().handle == handle,
        m.entries.last().req_id == m.rows[m.index].req_id,
        entries_hold(chains, m.entries),
        without_entries(chains, m.entries) == start,
        chains[handle].token_len == m.entries.last().previous_token_len,
        forall|j: int| 0 <= j < m.index ==> row_covered(chains, #[trigger] m.rows[j]),
    ensures
        consistent(start, m.covered(handle).0, m.covered(handle).1, chains),
{
    let row = m.rows[m.index];
    let filled = ReservationModel {
        rows: m.rows.update(m.index, PlannedChain { chain: Some(handle), ..row }),
        ..m
    };
    assert(m.entries[m.entries.len() - 1].handle == handle);
    if m.entries.last().previous_token_len >= row.context_len {
        let next = ReservationModel { index: filled.index + 1, ..filled };
        assert forall|j: int| 0 <= j < next.index implies row_covered(
            chains,
            #[trigger] next.rows[j],
        ) by {
            if j < m.index {
                assert(next.rows[j] == m.rows[j]);
            }
        }
        row_started_consistent(start, next, chains);
    } else {
        assert forall|j: int| 0 <= j < filled.index implies row_covered(
            chains,
            #[trigger] filled.rows[j],
        ) by {
            assert(filled.rows[j] == m.rows[j]);
        }
    }
}

/// One exchange with the allocator keeps a reservation consistent.
pub proof fn exchange_consistent(
    start: Map<KvChainHandle, ChainView>,
    m: ReservationModel,
    call: KvCall,
    chains: Map<KvChainHandle, ChainView>,
    reply: KvReply,
)
    requires
        consistent(start, m, call, chains),
        m.expects(reply),
        answers(chains, call, reply),
    ensures
        consistent(
            start,
            m.resumed(reply).0,
            m.resumed(reply).1,
            chains_after(chains, call, reply),
        ),
{
    let (n, c) = m.resumed(reply);
    let after = chains_after(chains, call, reply);
    let req_id = m.rows[m.index].req_id;
    match m.stage {
        Stage::Owner => {},
        Stage::Allocation => {
            match reply {
                KvReply::Allocated(Ok(h)) => {
                    assert(after.remove(h) =~= chains);
                    assert forall|k: int| 0 <= k < m.entries.len() implies (
                    #[trigger] m.entries[k]).handle != h by {
                        assert(chains.dom().contains(m.entries[k].handle));
                    }
                },
                KvReply::Allocated(Err(e)) => {
                    undoing_consistent(
                        start,
                        m,
                        chains,
                        crate::engine::types::kv_error(e, Some(req_id)),
                    );
                },
                _ => {},
            }
        },
        Stage::Viewing { handle, newly_allocated } => {
            match reply {
                KvReply::Viewed(Ok(view)) => {
                    if view.owner != req_id {
                        undoing_consistent(
                            start,
                            m,
                            chains,
                            crate::engine::types::refused(
                                Some(req_id),
                                crate::engine::types::Refusal::OwnerMismatch,
                            ),
                        );
                    } else {
                        let entry = n.entries.last();
                        assert(n.entries.drop_last() =~= m.entries);
                        if newly_allocated {
                            assert(without_entry(chains, entry) == chains.remove(handle));
                        } else {
                            assert(without_entry(chains, entry) =~= chains);
                        }
                        assert(without_entries(chains, n.entries) == start);
                        assert(entries_hold(chains, n.entries));
                    }
                },
                KvReply::Viewed(Err(e)) => {
                    assert(!newly_allocated);
                    undoing_consistent(
                        start,
                        m,
                        chains,
                        crate::engine::types::kv_error(e, Some(req_id)),
                    );
                },
                _ => {},
            }
        },
        Stage::BoundChain { handle } => {
            match reply {
                KvReply::Chain(bound) => {
                    if bound == Some(handle) {
                        covered_consistent(start, m, chains, handle);
                    }
                },
                _ => {},
            }
        },
        Stage::Binding { handle } => {
            match reply {
                KvReply::Bound(true) => {
                    covered_consistent(start, m, chains, handle);
                },
                _ => {
                    undoing_consistent(
                        start,
                        m,
                        chains,
                        crate::engine::types::refused(
                            Some(req_id),
                            crate::engine::types::Refusal::BindFailed,
                        ),
                    );
                },
            }
        },
        Stage::Appending => {
            match reply {
                KvReply::Appended(Ok(_)) => {
                    let entry = m.entries.last();
                    assert(m.entries[m.entries.len() - 1] == entry);
                    assert(without_entry(after, entry) =~= without_entry(chains, entry));
                    let next = ReservationModel { index: m.index + 1, ..m };
                    assert(entries_hold(after, m.entries));
                    assert forall|j: int| 0 <= j < next.index implies row_covered(
                        after,
                        #[trigger] next.rows[j],
                    ) by {
                        if j < m.index {
                            assert(row_covered(chains, m.rows[j]));
                        }
                    }
                    row_started_consistent(start, next, after);
                },
                KvReply::Appended(Err(e)) => {
                    undoing_consistent(
                        start,
                        m,
                        chains,
                        crate::engine::types::kv_error(e, Some(req_id)),
                    );
                },
                _ => {},
            }
        },
        Stage::Releasing { error } => {
            let entry = m.entries.last();
            let rest = m.entries.drop_last();
            assert(after == without_entry(chains, entry));
            assert forall|k: int| 0 <= k < rest.len() implies after.dom().contains(
                (#[trigger] rest[k]).handle,
            ) && after[rest[k].handle].owner == rest[k].req_id by {
                assert(rest[k] == m.entries[k]);
                assert(m.entries[m.entries.len() - 1] == entry);
            }
        },
        Stage::Unbinding { error } => {
            let rest = ReservationModel { entries: m.entries.drop_last(), ..m };
            undoing_consistent(start, rest, chains, error);
        },
        Stage::Truncating { error } => {
            let entry = m.entries.last();
            let rest = ReservationModel { entries: m.entries.drop_last(), ..m };
            assert(m.entries[m.entries.len() - 1] == entry);
            assert(after =~= without_entry(chains, entry));
            assert forall|k: int| 0 <= k < rest.entries.len() implies after.dom().contains(
                (#[trigger] rest.entries[k]).handle,
            ) && after[rest.entries[k].handle].owner == rest.entries[k].req_id by {
                assert(rest.entries[k] == m.entries[k]);
            }
            undoing_consistent(start, rest, after, error);
        },
        Stage::Finished => {},
    }
}

/// Whether the replies, taken in order, are ones that an allocator with these
/// chains can give to the reservation's calls.
pub open spec fn answers_all(
    m: ReservationModel,
    call: KvCall,
    chains: Map<KvChainHandle, ChainView>,
    replies: Seq<KvReply>,
) -> bool
    decreases replies.len(),
{
    replies.len() == 0 || {
        &&& m.expects(replies[0])
        &&& answers(chains, call, replies[0])
        &&& answers_all(
            m.resumed(replies[0]).0,
            m.resumed(replies[0]).1,
            chains_after(chains, call, replies[0]),
            replies.drop_first(),
        )
    }
}

/// The reservation, its call and the chains after the replies.
pub open spec fn exchanged(
    m: ReservationModel,
    call: KvCall,
    chains: Map<KvChainHandle, ChainView>,
    replies: Seq<KvReply>,
) -> (ReservationModel, KvCall, Map<KvChainHandle, ChainView>)
    decreases replies.len(),
{
    if replies.len() == 0 {
        (m, call, chains)
    } else {
        exchanged(
            m.resumed(replies[0]).0,
            m.resumed(replies[0]).1,
            chains_after(chains, call, replies[0]),
            replies.drop_first(),
        )
    }
}

/// The plan asks the same of the same requests; only chains may be filled in.
pub open spec fn same_plan(a: Seq<PlannedChain>, b: Seq<PlannedChain>) -> bool {
    &&& a.len() == b.len()
    &&& forall|j: int|
        0 <= j < a.len() ==> (#[trigger] a[j]).req_id == b[j].req_id && a[j].context_len
            == b[j].context_len
}

proof fn exchanges_consistent(
    start: Map<KvChainHandle, ChainView>,
    m: ReservationModel,
    call: KvCall,
    chains: Map<KvChainHandle, ChainView>,
    replies: Seq<KvReply>,
)
    requires
        consistent(start, m, call, chains),
        answers_all(m, call, chains, replies),
    ensures
        ({
            let (n, c, after) = exchanged(m, call, chains, replies);
            consistent(start, n, c, after) && same_plan(m.rows, n.rows)
        }),
    decreases replies.len(),
{
    if replies.len() > 0 {
        exchange_consistent(start, m, call, chains, replies[0]);
        assert(same_plan(m.rows, m.resumed(replies[0]).0.rows));
        exchanges_consistent(
            start,
            m.resumed(replies[0]).0,
            m.resumed(replies[0]).1,
            chains_after(chains, call, replies[0]),
            replies.drop_first(),
        );
    }
}

// ---------------------------------------------------------------------------
// How long the chains become
// ---------------------------------------------------------------------------

/// How many tokens a chain held before a reservation.
pub open spec fn prior(start: Map<KvChainHandle, ChainView>, handle: KvChainHandle) -> u32 {
    if start.dom().contains(handle) {
        start[handle].token_len
    } else {
        0
    }
}

/// No two rows of a plan are of one request.
pub open spec fn distinct_requests(rows: Seq<PlannedChain>) -> bool {
    forall|i: int, j: int|
        0 <= i < j < rows.len() ==> (#[trigger] rows[i]).req_id != (#[trigger] rows[j]).req_id
}

/// A request's chain is as long as its context, or as long as it was where it was
/// longer.
pub open spec fn row_extended(
    start: Map<KvChainHandle, ChainView>,
    chains: Map<KvChainHandle, ChainView>,
    row: PlannedChain,
) -> bool {
    match row.chain {
        Some(h) => chains.dom().contains(h) && chains[h].token_len == if prior(start, h)
            > row.context_len {
            prior(start, h)
        } else {
            row.context_len
        },
        None => false,
    }
}

pub open spec fn active(m: ReservationModel, call: KvCall) -> bool {
    !undo_stage(m.stage) && !(call is Refused)
}

/// The entries are those of the rows so far, with their chains' prior lengths, and
/// the rows that are done are extended.
pub open spec fn tallied(
    start: Map<KvChainHandle, ChainView>,
    m: ReservationModel,
    chains: Map<KvChainHandle, ChainView>,
) -> bool {
    &&& m.entries.len() == m.index + if m.stage is BoundChain || m.stage is Binding
        || m.stage is Appending {
        1int
    } else {
        0int
    }
    &&& m.entries.len() <= m.rows.len()
    &&& forall|k: int|
        0 <= k < m.entries.len() ==> (#[trigger] m.entries[k]).req_id == m.rows[k].req_id && prior(
            start,
            m.entries[k].handle,
        ) == m.entries[k].previous_token_len
    &&& forall|j: int|
        0 <= j < m.index ==> (#[trigger] m.rows[j]).chain == Some(m.entries[j].handle)
            && row_extended(start, chains, m.rows[j])
}

/// Entries do not touch the chains of others.
proof fn untouched(
    chains: Map<KvChainHandle, ChainView>,
    entries: Seq<ReservationEntry>,
    handle: KvChainHandle,
)
    requires
        forall|k: int| 0 <= k < entries.len() ==> (#[trigger] entries[k]).handle != handle,
    ensures
        without_entries(chains, entries).dom().contains(handle) == chains.dom().contains(handle),
        chains.dom().contains(handle) ==> without_entries(chains, entries)[handle]
            == chains[handle],
    decreases entries.len(),
{
    if entries.len() > 0 {
        let rest = entries.drop_last();
        assert(entries[entries.len() - 1].handle != handle);
        assert forall|k: int| 0 <= k < rest.len() implies (#[trigger] rest[k]).handle != handle by {
            assert(rest[k] == entries[k]);
        }
        untouched(without_entry(chains, entries.last()), rest, handle);
    }
}

proof fn exchange_tallied(
    start: Map<KvChainHandle, ChainView>,
    m: ReservationModel,
    call: KvCall,
    chains: Map<KvChainHandle, ChainView>,
    reply: KvReply,
)
    requires
        consistent(start, m, call, chains),
        m.expects(reply),
        answers(chains, call, reply),
        distinct_requests(m.rows),
        active(m, call) ==> tallied(start, m, chains),
    ensures
        active(m.resumed(reply).0, m.resumed(reply).1) ==> tallied(
            start,
            m.resumed(reply).0,
            chains_after(chains, call, reply),
        ),
{
    let (n, c) = m.resumed(reply);
    let after = chains_after(chains, call, reply);
    match m.stage {
        Stage::Allocation => {
            match reply {
                KvReply::Allocated(Ok(h)) => {
                    assert forall|j: int| 0 <= j < n.index implies (#[trigger] n.rows[j]).chain
                        == Some(n.entries[j].handle) && row_extended(start, after, n.rows[j]) by {
                        assert(m.rows[j].chain == Some(m.entries[j].handle));
                    }
                },
                _ => {},
            }
        },
        Stage::Viewing { handle, newly_allocated } => {
            match reply {
                KvReply::Viewed(Ok(view)) => {
                    if view.owner == m.rows[m.index].req_id {
                        assert forall|k: int| 0 <= k < m.entries.len() implies (
                        #[trigger] m.entries[k]).handle != handle by {
                            assert(m.entries[k].req_id == m.rows[k].req_id);
                            assert(m.rows[k].req_id != m.rows[m.index].req_id);
                        }
                        if newly_allocated {
                            untouched(chains.remove(handle), m.entries, handle);
                        } else {
                            untouched(chains, m.entries, handle);
                        }
                        assert forall|k: int| 0 <= k < n.entries.len() implies (
                        #[trigger] n.entries[k]).req_id == n.rows[k].req_id && prior(
                            start,
                            n.entries[k].handle,
                        ) == n.entries[k].previous_token_len by {
                            if k < m.entries.len() {
                                assert(n.entries[k] == m.entries[k]);
                            }
                        }
                        assert forall|j: int| 0 <= j < n.index implies (#[trigger] n.rows[j]).chain
                            == Some(n.entries[j].handle) && row_extended(start, after, n.rows[j]) by {
                            assert(m.rows[j].chain == Some(m.entries[j].handle));
                            assert(n.entries[j] == m.entries[j]);
                        }
                    }
                },
                _ => {},
            }
        },
        Stage::BoundChain { handle } => {
            match reply {
                KvReply::Chain(bound) => {
                    if bound == Some(handle) {
                        covered_tallied(start, m, chains, handle);
                    }
                },
                _ => {},
            }
        },
        Stage::Binding { handle } => {
            match reply {
                KvReply::Bound(true) => {
                    covered_tallied(start, m, chains, handle);
                },
                _ => {},
            }
        },
        Stage::Appending => {
            match reply {
                KvReply::Appended(Ok(_)) => {
                    let last = m.entries.len() - 1;
                    assert(m.entries[last] == m.entries.last());
                    let next = ReservationModel { index: m.index + 1, ..m };
                    assert forall|j: int| 0 <= j < next.index implies (#[trigger] next.rows[j]).chain
                        == Some(next.entries[j].handle) && row_extended(
                        start,
                        after,
                        next.rows[j],
                    ) by {
                        if j < m.index {
                            assert(m.rows[j].chain == Some(m.entries[j].handle));
                            assert(m.rows[j].req_id != m.rows[m.index].req_id);
                            assert(m.entries[j].handle != m.entries[last].handle);
                        }
                    }
                },
                _ => {},
            }
        },
        _ => {},
    }
}

proof fn covered_tallied(
    start: Map<KvChainHandle, ChainView>,
    m: ReservationModel,
    chains: Map<KvChainHandle, ChainView>,
    handle: KvChainHandle,
)
    requires
        0 <= m.index < m.rows.len(),
        m.entries.len() == m.index + 1,
        m.stage is BoundChain || m.stage is Binding,
        m.entries.last().handle == handle,
        chains.dom().contains(handle),
        chains[handle].token_len == m.entries.last().previous_token_len,
        tallied(start, m, chains),
    ensures
        tallied(start, m.covered(handle).0, chains),
{
    let row = m.rows[m.index];
    let filled = m.rows.update(m.index, PlannedChain { chain: Some(handle), ..row });
    let n = m.covered(handle).0;
    assert(m.entries[m.index] == m.entries.last());
    assert(n.rows == filled);
    assert forall|k: int| 0 <= k < n.entries.len() implies (#[trigger] n.entries[k]).req_id
        == n.rows[k].req_id && prior(start, n.entries[k].handle)
        == n.entries[k].previous_token_len by {
        assert(m.entries[k].req_id == m.rows[k].req_id);
    }
    assert forall|j: int| 0 <= j < n.index implies (#[trigger] n.rows[j]).chain == Some(
        n.entries[j].handle,
    ) && row_extended(start, chains, n.rows[j]) by {
        if j < m.index {
            assert(n.rows[j] == m.rows[j]);
        }
    }
}

proof fn exchanges_tallied(
    start: Map<KvChainHandle, ChainView>,
    m: ReservationModel,
    call: KvCall,
    chains: Map<KvChainHandle, ChainView>,
    replies: Seq<KvReply>,
)
    requires
        consistent(start, m, call, chains),
        answers_all(m, call, chains, replies),
        distinct_requests(m.rows),
        active(m, call) ==> tallied(start, m, chains),
    ensures
        ({
            let (n, c, after) = exchanged(m, call, chains, replies);
            active(n, c) ==> tallied(start, n, after)
        }),
    decreases replies.len(),
{
    if replies.len() > 0 {
        exchange_consistent(start, m, call, chains, replies[0]);
        exchange_tallied(start, m, call, chains, replies[0]);
        let n = m.resumed(replies[0]).0;
        assert(same_plan(m.rows, n.rows));
        assert forall|i: int, j: int| 0 <= i < j < n.rows.len() implies (
        #[trigger] n.rows[i]).req_id != (#[trigger] n.rows[j]).req_id by {
            assert(m.rows[i].req_id != m.rows[j].req_id);
        }
        exchanges_tallied(
            start,
            n,
            m.resumed(replies[0]).1,
            chains_after(chains, call, replies[0]),
            replies.drop_first(),
        );
    }
}

/// A reservation is all or nothing: when it is refused, the allocator's chains
/// are what they were before it; when it completes, every request of the plan
/// owns a chain that covers its context, exactly as far as it must be extended,
/// and its entries tell how to undo it.
pub proof fn reservation_is_all_or_nothing(
    rows: Seq<PlannedChain>,
    chains: Map<KvChainHandle, ChainView>,
    replies: Seq<KvReply>,
)
    requires
        ({
            let m = ReservationModel {
                rows,
                entries: Seq::empty(),
                index: 0,
                stage: Stage::Finished,
            };
            answers_all(m.row_started().0, m.row_started().1, chains, replies)
        }),
    ensures
        ({
            let m = ReservationModel {
                rows,
                entries: Seq::empty(),
                index: 0,
                stage: Stage::Finished,
            };
            let (n, call, after) = exchanged(
                m.row_started().0,
                m.row_started().1,
                chains,
                replies,
            );
            &&& same_plan(rows, n.rows)
            &&& call is Refused ==> after == chains
            &&& call is Reserved ==> forall|j: int|
                0 <= j < n.rows.len() ==> row_covered(after, #[trigger] n.rows[j])
            &&& call is Reserved && distinct_requests(rows) ==> forall|j: int|
                0 <= j < n.rows.len() ==> row_extended(chains, after, #[trigger] n.rows[j])
            &&& call is Reserved ==> entries_hold(after, n.entries) && without_entries(
                after,
                n.entries,
            ) == chains
        }),
{
    let m = ReservationModel { rows, entries: Seq::empty(), index: 0, stage: Stage::Finished };
    row_started_consistent(chains, m, chains);
    exchanges_consistent(chains, m.row_started().0, m.row_started().1, chains, replies);
    if distinct_requests(rows) {
        exchanges_tallied(chains, m.row_started().0, m.row_started().1, chains, replies);
    }
}

/// Rolling back a completed reservation, when its step cannot be launched or
/// collected, returns the allocator's chains to what they were before it.
pub proof fn roll_back_restores(
    start: Map<KvChainHandle, ChainView>,
    chains: Map<KvChainHandle, ChainView>,
    entries: Seq<ReservationEntry>,
    error: EngineError,
    replies: Seq<KvReply>,
)
    requires
        entries_hold(chains, entries),
        without_entries(chains, entries) == start,
        ({
            let m = ReservationModel {
                rows: Seq::empty(),
                entries,
                index: 0,
                stage: Stage::Finished,
            };
            answers_all(m.undoing(error).0, m.undoing(error).1, chains, replies)
        }),
    ensures
        ({
            let m = ReservationModel {
                rows: Seq::empty(),
                entries,
                index: 0,
                stage: Stage::Finished,
            };
            let (n, call, after) = exchanged(
                m.undoing(error).0,
                m.undoing(error).1,
                chains,
                replies,
            );
            call is Refused ==> after == start
        }),
{
    let m = ReservationModel { rows: Seq::empty(), entries, index: 0, stage: Stage::Finished };
    undoing_consistent(start, m, chains, error);
    exchanges_consistent(start, m.undoing(error).0, m.undoing(error).1, chains, replies);
}

// ---------------------------------------------------------------------------
// The chains that are bound
// ---------------------------------------------------------------------------

/// Whether a reply is one that a scheduler with these bindings can give.
pub open spec fn scheduler_answers(
    bound: Map<u64, KvChainHandle>,
    call: KvCall,
    reply: KvReply,
) -> bool {
    match (call, reply) {
        (KvCall::BoundChain { req_id }, KvReply::Chain(chain)) => chain == if bound.dom().contains(
            req_id,
        ) {
            Some(bound[req_id])
        } else {
            None
        },
        _ => true,
    }
}

/// The scheduler's bindings after a call was answered.
pub open spec fn bound_after(
    bound: Map<u64, KvChainHandle>,
    call: KvCall,
    reply: KvReply,
) -> Map<u64, KvChainHandle> {
    match (call, reply) {
        (KvCall::Bind { req_id, handle }, KvReply::Bound(true)) => bound.insert(req_id, handle),
        (KvCall::Unbind { req_id, .. }, _) => bound.remove(req_id),
        _ => bound,
    }
}

/// A row's chain is the one that its request is bound to.
pub open spec fn row_bound(bound: Map<u64, KvChainHandle>, row: PlannedChain) -> bool {
    bound.dom().contains(row.req_id) && row.chain == Some(bound[row.req_id])
}

/// The rows that are done are bound, and so is the one whose chain is extended.
pub open spec fn bindings_hold(m: ReservationModel, bound: Map<u64, KvChainHandle>) -> bool {
    &&& forall|j: int| 0 <= j < m.index ==> row_bound(bound, #[trigger] m.rows[j])
    &&& m.stage is Appending ==> row_bound(bound, m.rows[m.index])
}

proof fn exchange_binds(
    m: ReservationModel,
    call: KvCall,
    bound: Map<u64, KvChainHandle>,
    reply: KvReply,
)
    requires
        m.well_formed(),
        pending(m, call),
        m.expects(reply),
        scheduler_answers(bound, call, reply),
        distinct_requests(m.rows),
        active(m, call) ==> bindings_hold(m, bound),
    ensures
        active(m.resumed(reply).0, m.resumed(reply).1) ==> bindings_hold(
            m.resumed(reply).0,
            bound_after(bound, call, reply),
        ),
{
    let (n, c) = m.resumed(reply);
    let after = bound_after(bound, call, reply);
    match m.stage {
        Stage::BoundChain { handle } => {
            if reply == KvReply::Chain(Some(handle)) {
                covered_binds(m, bound, handle);
            }
        },
        Stage::Binding { handle } => {
            if reply == KvReply::Bound(true) {
                assert forall|j: int| 0 <= j < m.index implies row_bound(
                    after,
                    #[trigger] m.rows[j],
                ) by {
                    assert(m.rows[j].req_id != m.rows[m.index].req_id);
                }
                covered_binds(m, after, handle);
            }
        },
        Stage::Appending => {
            assert(forall|j: int| 0 <= j < m.index ==> row_bound(bound, #[trigger] m.rows[j]));
        },
        _ => {},
    }
}

proof fn covered_binds(m: ReservationModel, bound: Map<u64, KvChainHandle>, handle: KvChainHandle)
    requires
        0 <= m.index < m.rows.len(),
        m.entries.len() > 0,
        forall|j: int| 0 <= j < m.index ==> row_bound(bound, #[trigger] m.rows[j]),
        bound.dom().contains(m.rows[m.index].req_id),
        bound[m.rows[m.index].req_id] == handle,
    ensures
        bindings_hold(m.covered(handle).0, bound),
{
    let row = m.rows[m.index];
    let filled = m.rows.update(m.index, PlannedChain { chain: Some(handle), ..row });
    let n = m.covered(handle).0;
    assert(n.rows == filled);
    assert forall|j: int| 0 <= j < n.index implies row_bound(bound, #[trigger] n.rows[j]) by {
        if j < m.index {
            assert(n.rows[j] == m.rows[j]);
        }
    }
}

/// The bindings after the replies.
pub open spec fn bound_through(
    m: ReservationModel,
    call: KvCall,
    bound: Map<u64, KvChainHandle>,
    replies: Seq<KvReply>,
) -> Map<u64, KvChainHandle>
    decreases replies.len(),
{
    if replies.len() == 0 {
        bound
    } else {
        bound_through(
            m.resumed(replies[0]).0,
            m.resumed(replies[0]).1,
            bound_after(bound, call, replies[0]),
            replies.drop_first(),
        )
    }
}

/// Whether the replies are ones that a scheduler with these bindings can give.
pub open spec fn scheduler_answers_all(
    m: ReservationModel,
    call: KvCall,
    bound: Map<u64, KvChainHandle>,
    replies: Seq<KvReply>,
) -> bool
    decreases replies.len(),
{
    replies.len() == 0 || {
        &&& scheduler_answers(bound, call, replies[0])
        &&& scheduler_answers_all(
            m.resumed(replies[0]).0,
            m.resumed(replies[0]).1,
            bound_after(bound, call, replies[0]),
            replies.drop_first(),
        )
    }
}

proof fn exchanges_bind(
    start: Map<KvChainHandle, ChainView>,
    m: ReservationModel,
    call: KvCall,
    chains: Map<KvChainHandle, ChainView>,
    bound: Map<u64, KvChainHandle>,
    replies: Seq<KvReply>,
)
    requires
        consistent(start, m, call, chains),
        answers_all(m, call, chains, replies),
        scheduler_answers_all(m, call, bound, replies),
        distinct_requests(m.rows),
        active(m, call) ==> bindings_hold(m, bound),
    ensures
        ({
            let (n, c, after) = exchanged(m, call, chains, replies);
            active(n, c) ==> bindings_hold(n, bound_through(m, call, bound, replies))
        }),
    decreases replies.len(),
{
    if replies.len() > 0 {
        exchange_consistent(start, m, call, chains, replies[0]);
        exchange_binds(m, call, bound, replies[0]);
        let n = m.resumed(replies[0]).0;
        assert(same_plan(m.rows, n.rows));
        assert forall|i: int, j: int| 0 <= i < j < n.rows.len() implies (
        #[trigger] n.rows[i]).req_id != (#[trigger] n.rows[j]).req_id by {
            assert(m.rows[i].req_id != m.rows[j].req_id);
        }
        exchanges_bind(
            start,
            n,
            m.resumed(replies[0]).1,
            chains_after(chains, call, replies[0]),
            bound_after(bound, call, replies[0]),
            replies.drop_first(),
        );
    }
}

/// When a reservation completes, the chain of every row is the one that the
/// scheduler has bound to its request.
pub proof fn reserved_chains_are_bound(
    rows: Seq<PlannedChain>,
    chains: Map<KvChainHandle, ChainView>,
    bound: Map<u64, KvChainHandle>,
    replies: Seq<KvReply>,
)
    requires
        distinct_requests(rows),
        ({
            let m = ReservationModel {
                rows,
                entries: Seq::empty(),
                index: 0,
                stage: Stage::Finished,
            };
            &&& answers_all(m.row_started().0, m.row_started().1, chains, replies)
            &&& scheduler_answers_all(m.row_started().0, m.row_started().1, bound, replies)
        }),
    ensures
        ({
            let m = ReservationModel {
                rows,
                entries: Seq::empty(),
                index: 0,
                stage: Stage::Finished,
            };
            let (n, call, after) = exchanged(
                m.row_started().0,
                m.row_started().1,
                chains,
                replies,
            );
            let bindings = bound_through(
                m.row_started().0,
                m.row_started().1,
                bound,
                replies,
            );
            call is Reserved ==> forall|j: int|
                0 <= j < n.rows.len() ==> row_bound(bindings, #[trigger] n.rows[j])
        }),
{
    let m = ReservationModel { rows, entries: Seq::empty(), index: 0, stage: Stage::Finished };
    row_started_consistent(chains, m, chains);
    exchanges_consistent(chains, m.row_started().0, m.row_started().1, chains, replies);
    exchanges_bind(chains, m.row_started().0, m.row_started().1, chains, bound, replies);
}

// ---------------------------------------------------------------------------
// Admission
// ---------------------------------------------------------------------------

/// The last call of an admission, and the allocator's chains after it.
pub open spec fn admission_ended(
    chains: Map<KvChainHandle, ChainView>,
    paged_kv: bool,
    req_id: u64,
    allocated: Result<KvChainHandle, PagedKvError>,
    accepted: bool,
) -> (AdmissionCall, Map<KvChainHandle, ChainView>) {
    match admission_begun(paged_kv, req_id) {
        AdmissionCall::Allocate { req_id: owner } => {
            let holding = match allocated {
                Ok(h) => chains.insert(h, ChainView { owner, token_len: 0 }),
                Err(_) => chains,
            };
            match after_allocation(req_id, allocated) {
                AdmissionCall::Enqueue { chain } => match after_offer(accepted, chain) {
                    AdmissionCall::Release { handle, error } => (
                        AdmissionCall::Release { handle, error },
                        holding.remove(handle),
                    ),
                    call => (call, holding),
                },
                call => (call, holding),
            }
        },
        _ => (after_offer(accepted, None), chains),
    }
}

/// Admission is all or nothing: a request that is refused, by the allocator or by
/// the scheduler, leaves the allocator's chains as they were, and one that is
/// admitted adds its own empty chain where there is a pool.
pub proof fn admission_is_all_or_nothing(
    chains: Map<KvChainHandle, ChainView>,
    paged_kv: bool,
    req_id: u64,
    allocated: Result<KvChainHandle, PagedKvError>,
    accepted: bool,
)
    requires
        allocated is Ok ==> !chains.dom().contains(allocated->Ok_0),
    ensures
        ({
            let (call, after) = admission_ended(chains, paged_kv, req_id, allocated, accepted);
            &&& call is Admitted || call is Release || call is Rejected
            &&& call is Admitted == (accepted && (paged_kv ==> allocated is Ok))
            &&& !(call is Admitted) ==> after == chains
            &&& call is Admitted && !paged_kv ==> after == chains
            &&& call is Admitted && paged_kv ==> after == chains.insert(
                allocated->Ok_0,
                ChainView { owner: req_id, token_len: 0 },
            )
        }),
{
    if allocated is Ok {
        let h = allocated->Ok_0;
        assert(chains.insert(h, ChainView { owner: req_id, token_len: 0 }).remove(h) =~= chains);
    }
}

} // verus!
