//! What holds of every completed step.
use crate::engine::decisions::{output_of, surfaced, StepOutput, StepToken};
use vstd::prelude::*;

verus! {

/// Cancellation is final: a token is surfaced exactly where its request is still
/// alive, whatever the backend returned.
pub proof fn late_tokens_never_surface(tokens: Seq<StepToken>, alive: Set<u64>, t: StepToken)
    ensures
        surfaced(tokens, alive).contains(t) == (tokens.contains(t) && alive.contains(t.req_id)),
{
    let live = |t: StepToken| alive.contains(t.req_id);
    if surfaced(tokens, alive).contains(t) {
        tokens.lemma_filter_contains_rev(live, t);
        let i = choose|i: int|
            0 <= i < surfaced(tokens, alive).len() && surfaced(tokens, alive)[i] == t;
        tokens.lemma_filter_pred(live, i);
    }
    if tokens.contains(t) && alive.contains(t.req_id) {
        let i = choose|i: int| 0 <= i < tokens.len() && tokens[i] == t;
        tokens.lemma_filter_contains(live, i);
    }
}

/// The requests of a completed step whose pages the accelerator held back.
pub open spec fn held_back(req_ids: Seq<u64>, alive: Set<u64>, managed: Set<u64>, paged_kv: bool) -> Seq<
    u64,
> {
    req_ids.filter(|id: u64| !alive.contains(id) && !managed.contains(id) && paged_kv)
}

/// A request that was cancelled while the accelerator used its pages gives them
/// back when the step completes, and only such a request does: never one that is
/// alive, nor one whose pages a cache attachment owns.
pub proof fn cancelled_pages_come_back(
    req_ids: Seq<u64>,
    alive: Set<u64>,
    managed: Set<u64>,
    paged_kv: bool,
    id: u64,
)
    ensures
        held_back(req_ids, alive, managed, paged_kv).contains(id) == (req_ids.contains(id)
            && !alive.contains(id) && !managed.contains(id) && paged_kv),
{
    let pick = |id: u64| !alive.contains(id) && !managed.contains(id) && paged_kv;
    let kept = req_ids.filter(pick);
    if kept.contains(id) {
        req_ids.lemma_filter_contains_rev(pick, id);
        let i = choose|i: int| 0 <= i < kept.len() && kept[i] == id;
        req_ids.lemma_filter_pred(pick, i);
    }
    if req_ids.contains(id) && pick(id) {
        let i = choose|i: int| 0 <= i < req_ids.len() && req_ids[i] == id;
        req_ids.lemma_filter_contains(pick, i);
    }
}

/// The outputs of a step whose requests give their pages back.
pub open spec fn ended(
    outputs: Seq<StepOutput>,
    alive: Set<u64>,
    managed: Set<u64>,
    paged_kv: bool,
) -> Seq<StepOutput> {
    outputs.filter(
        |o: StepOutput|
            (o.finished || !alive.contains(o.req_id)) && !managed.contains(o.req_id) && paged_kv,
    )
}

/// A request that ends with a step gives its pages back, unless a cache
/// attachment owns them.
pub proof fn terminal_pages_come_back(
    outputs: Seq<StepOutput>,
    alive: Set<u64>,
    managed: Set<u64>,
    paged_kv: bool,
    o: StepOutput,
)
    ensures
        ended(outputs, alive, managed, paged_kv).contains(o) == (outputs.contains(o) && (o.finished
            || !alive.contains(o.req_id)) && !managed.contains(o.req_id) && paged_kv),
{
    let pick = |o: StepOutput|
        (o.finished || !alive.contains(o.req_id)) && !managed.contains(o.req_id) && paged_kv;
    let kept = outputs.filter(pick);
    if kept.contains(o) {
        outputs.lemma_filter_contains_rev(pick, o);
        let i = choose|i: int| 0 <= i < kept.len() && kept[i] == o;
        outputs.lemma_filter_pred(pick, i);
    }
    if outputs.contains(o) && pick(o) {
        let i = choose|i: int| 0 <= i < outputs.len() && outputs[i] == o;
        outputs.lemma_filter_contains(pick, i);
    }
}

/// A token that is surfaced keeps its request, its value and its finished flag.
pub proof fn outputs_keep_their_tokens(tokens: Seq<StepToken>, alive: Set<u64>, i: int)
    requires
        0 <= i < surfaced(tokens, alive).len(),
    ensures
        ({
            let t = surfaced(tokens, alive)[i];
            let o = surfaced(tokens, alive).map_values(|t: StepToken| output_of(t))[i];
            o.req_id == t.req_id && o.new_token == t.token_id && o.finished == t.finished
                && tokens.contains(t) && alive.contains(o.req_id)
        }),
{
    let t = surfaced(tokens, alive)[i];
    late_tokens_never_surface(tokens, alive, t);
    assert(surfaced(tokens, alive).contains(t));
}

} // verus!
