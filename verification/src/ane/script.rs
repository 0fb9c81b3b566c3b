//! The order of a decode step: every device and host operation, from the
//! embedding of a token to the ranking of the vocabulary.
use crate::ane::shape::{HEAD_ROWS, VOCAB};
use vstd::prelude::*;

verus! {

/// One operation of a decode step.
#[derive(Clone, Copy, Debug, PartialEq, Eq, Structural)]
pub enum DecodeOp {
    ReadEmbedding,
    ScaleEmbedding,
    CheckPosition { layer: usize },
    NormalizeInput { layer: usize },
    ProjectQkv { layer: usize },
    /// The value: its own projection, or the key's where the layer shares it.
    CopyValue { layer: usize, shared: bool },
    NormalizeQuery { layer: usize },
    NormalizeKey { layer: usize },
    NormalizeValue { layer: usize },
    RotateQuery { layer: usize, global: bool },
    RotateKey { layer: usize, global: bool },
    Attend { layer: usize },
    ProjectOutput { layer: usize },
    NormalizeAttention { layer: usize },
    AddAttention { layer: usize },
    NormalizeFfnInput { layer: usize },
    ObserveFfnInput { layer: usize },
    FeedForward { layer: usize },
    NormalizeFfn { layer: usize },
    AddFfn { layer: usize },
    ScaleLayer { layer: usize },
    ObserveLayer { layer: usize },
    NormalizeFinal,
    ProjectHead { tile: usize },
    RankHead { tile: usize },
}

/// The operations of one layer. A global layer's value is its key before the
/// key is normalized and rotated.
pub open spec fn layer_ops(layer: usize, sliding: bool) -> Seq<DecodeOp> {
    seq![
        DecodeOp::CheckPosition { layer },
        DecodeOp::NormalizeInput { layer },
        DecodeOp::ProjectQkv { layer },
        DecodeOp::CopyValue { layer, shared: !sliding },
        DecodeOp::NormalizeQuery { layer },
        DecodeOp::NormalizeKey { layer },
        DecodeOp::NormalizeValue { layer },
        DecodeOp::RotateQuery { layer, global: !sliding },
        DecodeOp::RotateKey { layer, global: !sliding },
        DecodeOp::Attend { layer },
        DecodeOp::ProjectOutput { layer },
        DecodeOp::NormalizeAttention { layer },
        DecodeOp::AddAttention { layer },
        DecodeOp::NormalizeFfnInput { layer },
        DecodeOp::ObserveFfnInput { layer },
        DecodeOp::FeedForward { layer },
        DecodeOp::NormalizeFfn { layer },
        DecodeOp::AddFfn { layer },
        DecodeOp::ScaleLayer { layer },
        DecodeOp::ObserveLayer { layer },
    ]
}

pub open spec fn layers_ops(sliding: Seq<bool>, count: int) -> Seq<DecodeOp>
    decreases count,
{
    if count <= 0 {
        Seq::empty()
    } else {
        layers_ops(sliding, count - 1) + layer_ops((count - 1) as usize, sliding[count - 1])
    }
}

pub open spec fn head_ops(count: int) -> Seq<DecodeOp>
    decreases count,
{
    if count <= 0 {
        Seq::empty()
    } else {
        head_ops(count - 1).push(DecodeOp::ProjectHead { tile: (count - 1) as usize }).push(
            DecodeOp::RankHead { tile: (count - 1) as usize },
        )
    }
}

/// The operations of a whole step.
pub open spec fn step_ops(sliding: Seq<bool>) -> Seq<DecodeOp> {
    seq![DecodeOp::ReadEmbedding, DecodeOp::ScaleEmbedding] + layers_ops(
        sliding,
        sliding.len() as int,
    ) + seq![DecodeOp::NormalizeFinal] + head_ops((VOCAB / HEAD_ROWS) as int)
}

fn push_layer_ops(ops: &mut Vec<DecodeOp>, layer: usize, sliding: bool)
    ensures
        final(ops)@ == old(ops)@ + layer_ops(layer, sliding),
{
    let ghost before = ops@;
    ops.push(DecodeOp::CheckPosition { layer });
    ops.push(DecodeOp::NormalizeInput { layer });
    ops.push(DecodeOp::ProjectQkv { layer });
    ops.push(DecodeOp::CopyValue { layer, shared: !sliding });
    ops.push(DecodeOp::NormalizeQuery { layer });
    ops.push(DecodeOp::NormalizeKey { layer });
    ops.push(DecodeOp::NormalizeValue { layer });
    ops.push(DecodeOp::RotateQuery { layer, global: !sliding });
    ops.push(DecodeOp::RotateKey { layer, global: !sliding });
    ops.push(DecodeOp::Attend { layer });
    ops.push(DecodeOp::ProjectOutput { layer });
    ops.push(DecodeOp::NormalizeAttention { layer });
    ops.push(DecodeOp::AddAttention { layer });
    ops.push(DecodeOp::NormalizeFfnInput { layer });
    ops.push(DecodeOp::ObserveFfnInput { layer });
    ops.push(DecodeOp::FeedForward { layer });
    ops.push(DecodeOp::NormalizeFfn { layer });
    ops.push(DecodeOp::AddFfn { layer });
    ops.push(DecodeOp::ScaleLayer { layer });
    ops.push(DecodeOp::ObserveLayer { layer });
    assert(ops@ =~= before + layer_ops(layer, sliding));
}

/// Lists the operations of a decode step; `sliding` tells the kind of each
/// layer.
pub fn decode_ops(sliding: &Vec<bool>) -> (r: Vec<DecodeOp>)
    ensures
        r@ == step_ops(sliding@),
{
    let mut ops: Vec<DecodeOp> = Vec::new();
    ops.push(DecodeOp::ReadEmbedding);
    ops.push(DecodeOp::ScaleEmbedding);
    let ghost head = seq![DecodeOp::ReadEmbedding, DecodeOp::ScaleEmbedding];
    assert(ops@ =~= head + layers_ops(sliding@, 0));
    let mut layer: usize = 0;
    while layer < sliding.len()
        invariant
            layer <= sliding@.len(),
            ops@ == head + layers_ops(sliding@, layer as int),
        decreases sliding@.len() - layer,
    {
        push_layer_ops(&mut ops, layer, sliding[layer]);
        layer = layer + 1;
        assert(ops@ =~= head + layers_ops(sliding@, layer as int));
    }
    ops.push(DecodeOp::NormalizeFinal);
    let ghost body = head + layers_ops(sliding@, sliding@.len() as int) + seq![
        DecodeOp::NormalizeFinal,
    ];
    let mut tile: usize = 0;
    assert(ops@ =~= body + head_ops(0));
    while tile < VOCAB / HEAD_ROWS
        invariant
            tile <= 16,
            ops@ == body + head_ops(tile as int),
        decreases 16 - tile,
    {
        ops.push(DecodeOp::ProjectHead { tile });
        ops.push(DecodeOp::RankHead { tile });
        tile = tile + 1;
        assert(ops@ =~= body + head_ops(tile as int));
    }
    ops
}

// ---------------------------------------------------------------------------
// Laws
// ---------------------------------------------------------------------------

/// Whether an operation is performed exactly once.
pub open spec fn once(ops: Seq<DecodeOp>, op: DecodeOp) -> bool {
    exists|i: int|
        0 <= i < ops.len() && #[trigger] ops[i] == op && forall|j: int|
            0 <= j < ops.len() && #[trigger] ops[j] == op ==> j == i
}

/// Whether two operations are each performed exactly once, the first before the
/// second.
pub open spec fn precedes(ops: Seq<DecodeOp>, first: DecodeOp, second: DecodeOp) -> bool {
    &&& once(ops, first)
    &&& once(ops, second)
    &&& forall|i: int, j: int|
        0 <= i < ops.len() && 0 <= j < ops.len() && #[trigger] ops[i] == first && #[trigger] ops[j]
            == second ==> i < j
}

proof fn layers_ops_at(sliding: Seq<bool>, count: int, i: int)
    requires
        0 <= count <= sliding.len(),
        count <= usize::MAX,
    ensures
        layers_ops(sliding, count).len() == 20 * count,
        0 <= i < 20 * count ==> layers_ops(sliding, count)[i] == layer_ops(
            (i / 20) as usize,
            sliding[i / 20],
        )[i % 20],
    decreases count,
{
    if count > 0 {
        layers_ops_at(sliding, count - 1, i);
        if 20 * (count - 1) <= i < 20 * count {
            assert(i / 20 == count - 1);
        }
    }
}

proof fn head_ops_at(count: int, i: int)
    requires
        0 <= count <= usize::MAX,
    ensures
        head_ops(count).len() == 2 * count,
        0 <= i < 2 * count ==> head_ops(count)[i] == if i % 2 == 0 {
            DecodeOp::ProjectHead { tile: (i / 2) as usize }
        } else {
            DecodeOp::RankHead { tile: (i / 2) as usize }
        },
    decreases count,
{
    if count > 0 {
        head_ops_at(count - 1, i);
    }
}

/// What stands at a place of a step.
proof fn step_ops_at(sliding: Seq<bool>, i: int)
    requires
        sliding.len() <= usize::MAX,
    ensures
        step_ops(sliding).len() == 2 + 20 * sliding.len() + 1 + 32,
        step_ops(sliding)[0] == DecodeOp::ReadEmbedding,
        step_ops(sliding)[1] == DecodeOp::ScaleEmbedding,
        2 <= i < 2 + 20 * sliding.len() ==> step_ops(sliding)[i] == layer_ops(
            ((i - 2) / 20) as usize,
            sliding[(i - 2) / 20],
        )[(i - 2) % 20],
        step_ops(sliding)[2 + 20 * sliding.len() as int] == DecodeOp::NormalizeFinal,
        3 + 20 * sliding.len() <= i < 3 + 20 * sliding.len() + 32 ==> step_ops(sliding)[i] == (if (i
            - 3 - 20 * sliding.len()) % 2 == 0 {
            DecodeOp::ProjectHead { tile: ((i - 3 - 20 * sliding.len()) / 2) as usize }
        } else {
            DecodeOp::RankHead { tile: ((i - 3 - 20 * sliding.len()) / 2) as usize }
        }),
{
    let n = sliding.len() as int;
    layers_ops_at(sliding, n, i - 2);
    assert(VOCAB / HEAD_ROWS == 16);
    head_ops_at(16, i - 3 - 20 * n);
}

/// An operation at a place where no other place holds the same.
proof fn stands_once(sliding: Seq<bool>, i: int)
    requires
        sliding.len() <= usize::MAX,
        0 <= i < step_ops(sliding).len(),
    ensures
        once(step_ops(sliding), step_ops(sliding)[i]),
        forall|j: int|
            0 <= j < step_ops(sliding).len() && #[trigger] step_ops(sliding)[j] == step_ops(
                sliding,
            )[i] ==> j == i,
{
    let ops = step_ops(sliding);
    step_ops_at(sliding, i);
    assert forall|j: int| 0 <= j < ops.len() && #[trigger] ops[j] == ops[i] implies j == i by {
        step_ops_at(sliding, j);
        let n = sliding.len() as int;
        if 2 <= i < 2 + 20 * n && 2 <= j < 2 + 20 * n {
            assert((i - 2) / 20 == (j - 2) / 20);
            assert((i - 2) % 20 == (j - 2) % 20);
        }
    }
}

proof fn stands_before(sliding: Seq<bool>, i: int, j: int)
    requires
        sliding.len() <= usize::MAX,
        0 <= i < j < step_ops(sliding).len(),
    ensures
        precedes(step_ops(sliding), step_ops(sliding)[i], step_ops(sliding)[j]),
{
    stands_once(sliding, i);
    stands_once(sliding, j);
}

/// The place of a layer's operation.
proof fn layer_place(sliding: Seq<bool>, layer: int, k: int)
    requires
        sliding.len() <= usize::MAX,
        0 <= layer < sliding.len(),
        0 <= k < 20,
    ensures
        0 <= 2 + 20 * layer + k < 2 + 20 * sliding.len() < step_ops(sliding).len(),
        step_ops(sliding)[2 + 20 * layer + k] == layer_ops(layer as usize, sliding[layer])[k],
{
    step_ops_at(sliding, 2 + 20 * layer + k);
    assert((20 * layer + k) / 20 == layer);
    assert((20 * layer + k) % 20 == k);
}

/// A layer rotates its query and its key once each, after it normalized them and
/// before it attends, and both by the same table: the global one exactly where the
/// layer is global.
pub proof fn query_and_key_share_a_table(sliding: Seq<bool>, layer: usize)
    requires
        sliding.len() <= usize::MAX,
        layer < sliding.len(),
    ensures
        ({
            let ops = step_ops(sliding);
            let global = !sliding[layer as int];
            &&& precedes(
                ops,
                DecodeOp::NormalizeQuery { layer },
                DecodeOp::RotateQuery { layer, global },
            )
            &&& precedes(
                ops,
                DecodeOp::NormalizeKey { layer },
                DecodeOp::RotateKey { layer, global },
            )
            &&& precedes(ops, DecodeOp::RotateQuery { layer, global }, DecodeOp::Attend { layer })
            &&& precedes(ops, DecodeOp::RotateKey { layer, global }, DecodeOp::Attend { layer })
            &&& !ops.contains(DecodeOp::RotateQuery { layer, global: !global })
            &&& !ops.contains(DecodeOp::RotateKey { layer, global: !global })
        }),
{
    let ops = step_ops(sliding);
    let at = 2 + 20 * layer as int;
    layer_place(sliding, layer as int, 4);
    layer_place(sliding, layer as int, 5);
    layer_place(sliding, layer as int, 7);
    layer_place(sliding, layer as int, 8);
    layer_place(sliding, layer as int, 9);
    stands_before(sliding, at + 4, at + 7);
    stands_before(sliding, at + 5, at + 8);
    stands_before(sliding, at + 7, at + 9);
    stands_before(sliding, at + 8, at + 9);
    assert forall|j: int| 0 <= j < ops.len() implies ops[j] != (DecodeOp::RotateQuery {
        layer,
        global: sliding[layer as int],
    }) && ops[j] != (DecodeOp::RotateKey { layer, global: sliding[layer as int] }) by {
        step_ops_at(sliding, j);
    }
}

/// A layer's value is its own projection where the layer is sliding, and the
/// projected key otherwise: taken before the key is normalized or rotated, and
/// normalized before it is attended to.
pub proof fn values_are_taken_before_the_key_changes(sliding: Seq<bool>, layer: usize)
    requires
        sliding.len() <= usize::MAX,
        layer < sliding.len(),
    ensures
        ({
            let ops = step_ops(sliding);
            let shared = !sliding[layer as int];
            let copied = DecodeOp::CopyValue { layer, shared };
            &&& precedes(ops, DecodeOp::ProjectQkv { layer }, copied)
            &&& precedes(ops, copied, DecodeOp::NormalizeKey { layer })
            &&& precedes(ops, copied, DecodeOp::NormalizeValue { layer })
            &&& precedes(ops, DecodeOp::NormalizeValue { layer }, DecodeOp::Attend { layer })
            &&& !ops.contains(DecodeOp::CopyValue { layer, shared: !shared })
        }),
{
    let ops = step_ops(sliding);
    let at = 2 + 20 * layer as int;
    layer_place(sliding, layer as int, 2);
    layer_place(sliding, layer as int, 3);
    layer_place(sliding, layer as int, 5);
    layer_place(sliding, layer as int, 6);
    layer_place(sliding, layer as int, 9);
    stands_before(sliding, at + 2, at + 3);
    stands_before(sliding, at + 3, at + 5);
    stands_before(sliding, at + 3, at + 6);
    stands_before(sliding, at + 6, at + 9);
    assert forall|j: int| 0 <= j < ops.len() implies ops[j] != (DecodeOp::CopyValue {
        layer,
        shared: sliding[layer as int],
    }) by {
        step_ops_at(sliding, j);
    }
}

/// A layer checks its position, projects its normalized input, attends, adds the
/// normalized attention, feeds the normalized sum forward, adds the normalized
/// result, scales it and shows it: each once, in this order.
pub proof fn layers_attend_and_feed_forward(sliding: Seq<bool>, layer: usize)
    requires
        sliding.len() <= usize::MAX,
        layer < sliding.len(),
    ensures
        ({
            let ops = step_ops(sliding);
            &&& precedes(
                ops,
                DecodeOp::CheckPosition { layer },
                DecodeOp::NormalizeInput { layer },
            )
            &&& precedes(ops, DecodeOp::NormalizeInput { layer }, DecodeOp::ProjectQkv { layer })
            &&& precedes(ops, DecodeOp::ProjectQkv { layer }, DecodeOp::NormalizeQuery { layer })
            &&& precedes(ops, DecodeOp::ProjectQkv { layer }, DecodeOp::NormalizeKey { layer })
            &&& precedes(ops, DecodeOp::Attend { layer }, DecodeOp::ProjectOutput { layer })
            &&& precedes(
                ops,
                DecodeOp::ProjectOutput { layer },
                DecodeOp::NormalizeAttention { layer },
            )
            &&& precedes(
                ops,
                DecodeOp::NormalizeAttention { layer },
                DecodeOp::AddAttention { layer },
            )
            &&& precedes(
                ops,
                DecodeOp::AddAttention { layer },
                DecodeOp::NormalizeFfnInput { layer },
            )
            &&& precedes(
                ops,
                DecodeOp::NormalizeFfnInput { layer },
                DecodeOp::ObserveFfnInput { layer },
            )
            &&& precedes(
                ops,
                DecodeOp::ObserveFfnInput { layer },
                DecodeOp::FeedForward { layer },
            )
            &&& precedes(ops, DecodeOp::FeedForward { layer }, DecodeOp::NormalizeFfn { layer })
            &&& precedes(ops, DecodeOp::NormalizeFfn { layer }, DecodeOp::AddFfn { layer })
            &&& precedes(ops, DecodeOp::AddFfn { layer }, DecodeOp::ScaleLayer { layer })
            &&& precedes(ops, DecodeOp::ScaleLayer { layer }, DecodeOp::ObserveLayer { layer })
        }),
{
    let at = 2 + 20 * layer as int;
    assert forall|k: int| 0 <= k < 20 implies #[trigger] step_ops(sliding)[at + k] == layer_ops(
        layer,
        sliding[layer as int],
    )[k] by {
        layer_place(sliding, layer as int, k);
    }
    layer_place(sliding, layer as int, 19);
    stands_before(sliding, at + 0, at + 1);
    stands_before(sliding, at + 1, at + 2);
    stands_before(sliding, at + 2, at + 4);
    stands_before(sliding, at + 2, at + 5);
    stands_before(sliding, at + 9, at + 10);
    stands_before(sliding, at + 10, at + 11);
    stands_before(sliding, at + 11, at + 12);
    stands_before(sliding, at + 12, at + 13);
    stands_before(sliding, at + 13, at + 14);
    stands_before(sliding, at + 14, at + 15);
    stands_before(sliding, at + 15, at + 16);
    stands_before(sliding, at + 16, at + 17);
    stands_before(sliding, at + 17, at + 18);
    stands_before(sliding, at + 18, at + 19);
}

/// The embedding is read and scaled before the first layer, each layer is done
/// before the next one begins, and the last before the final norm.
pub proof fn layers_follow_one_another(sliding: Seq<bool>, layer: usize)
    requires
        sliding.len() < usize::MAX,
        layer < sliding.len(),
    ensures
        ({
            let ops = step_ops(sliding);
            let last = DecodeOp::ObserveLayer { layer };
            &&& precedes(ops, DecodeOp::ReadEmbedding, DecodeOp::ScaleEmbedding)
            &&& precedes(ops, DecodeOp::ScaleEmbedding, DecodeOp::CheckPosition { layer })
            &&& layer + 1 < sliding.len() ==> precedes(
                ops,
                last,
                DecodeOp::CheckPosition { layer: (layer + 1) as usize },
            )
            &&& precedes(ops, last, DecodeOp::NormalizeFinal)
        }),
{
    let at = 2 + 20 * layer as int;
    step_ops_at(sliding, 0);
    layer_place(sliding, layer as int, 0);
    layer_place(sliding, layer as int, 19);
    stands_before(sliding, 0, 1);
    stands_before(sliding, 1, at);
    stands_before(sliding, at + 19, 2 + 20 * sliding.len() as int);
    if layer + 1 < sliding.len() {
        layer_place(sliding, layer + 1, 0);
        stands_before(sliding, at + 19, at + 20);
    }
}

/// After the final norm every row of the vocabulary is projected in one tile and
/// ranked right after, tile by tile.
pub proof fn the_whole_vocabulary_is_ranked(sliding: Seq<bool>, row: int)
    requires
        sliding.len() < usize::MAX,
        0 <= row < VOCAB,
    ensures
        ({
            let ops = step_ops(sliding);
            let tile = (row / HEAD_ROWS as int) as usize;
            let next = (tile + 1) as usize;
            &&& tile * HEAD_ROWS <= row < (tile + 1) * HEAD_ROWS <= VOCAB
            &&& precedes(ops, DecodeOp::NormalizeFinal, DecodeOp::ProjectHead { tile })
            &&& precedes(ops, DecodeOp::ProjectHead { tile }, DecodeOp::RankHead { tile })
            &&& (tile + 1) * HEAD_ROWS < VOCAB ==> precedes(
                ops,
                DecodeOp::RankHead { tile },
                DecodeOp::ProjectHead { tile: next },
            )
        }),
{
    let n = 3 + 20 * sliding.len() as int;
    let tile = row / HEAD_ROWS as int;
    assert(0 <= tile < 16);
    step_ops_at(sliding, n + 2 * tile);
    step_ops_at(sliding, n + 2 * tile + 1);
    assert((2 * tile) % 2 == 0 && (2 * tile) / 2 == tile);
    assert((2 * tile + 1) % 2 == 1 && (2 * tile + 1) / 2 == tile);
    stands_before(sliding, n - 1, n + 2 * tile);
    stands_before(sliding, n + 2 * tile, n + 2 * tile + 1);
    if tile < 15 {
        step_ops_at(sliding, n + 2 * tile + 2);
        assert((2 * tile + 2) % 2 == 0 && (2 * tile + 2) / 2 == tile + 1);
        stands_before(sliding, n + 2 * tile + 1, n + 2 * tile + 2);
    }
}

/// Nothing else is performed: what is done is done for a layer that there is or
/// for a tile of the vocabulary, and a step has no operation more than these.
pub proof fn steps_touch_their_layers_only(sliding: Seq<bool>, op: DecodeOp)
    requires
        sliding.len() <= usize::MAX,
        step_ops(sliding).contains(op),
    ensures
        once(step_ops(sliding), op),
        match op {
            DecodeOp::ReadEmbedding | DecodeOp::ScaleEmbedding | DecodeOp::NormalizeFinal => true,
            DecodeOp::ProjectHead { tile } => (tile + 1) * HEAD_ROWS <= VOCAB,
            DecodeOp::RankHead { tile } => (tile + 1) * HEAD_ROWS <= VOCAB,
            DecodeOp::CheckPosition { layer } => layer < sliding.len(),
            DecodeOp::NormalizeInput { layer } => layer < sliding.len(),
            DecodeOp::ProjectQkv { layer } => layer < sliding.len(),
            DecodeOp::CopyValue { layer, .. } => layer < sliding.len(),
            DecodeOp::NormalizeQuery { layer } => layer < sliding.len(),
            DecodeOp::NormalizeKey { layer } => layer < sliding.len(),
            DecodeOp::NormalizeValue { layer } => layer < sliding.len(),
            DecodeOp::RotateQuery { layer, .. } => layer < sliding.len(),
            DecodeOp::RotateKey { layer, .. } => layer < sliding.len(),
            DecodeOp::Attend { layer } => layer < sliding.len(),
            DecodeOp::ProjectOutput { layer } => layer < sliding.len(),
            DecodeOp::NormalizeAttention { layer } => layer < sliding.len(),
            DecodeOp::AddAttention { layer } => layer < sliding.len(),
            DecodeOp::NormalizeFfnInput { layer } => layer < sliding.len(),
            DecodeOp::ObserveFfnInput { layer } => layer < sliding.len(),
            DecodeOp::FeedForward { layer } => layer < sliding.len(),
            DecodeOp::NormalizeFfn { layer } => layer < sliding.len(),
            DecodeOp::AddFfn { layer } => layer < sliding.len(),
            DecodeOp::ScaleLayer { layer } => layer < sliding.len(),
            DecodeOp::ObserveLayer { layer } => layer < sliding.len(),
        },
{
    let ops = step_ops(sliding);
    let i = choose|i: int| 0 <= i < ops.len() && ops[i] == op;
    step_ops_at(sliding, i);
    stands_once(sliding, i);
    let n = sliding.len() as int;
    if 3 + 20 * n <= i {
        let t = (i - 3 - 20 * n) / 2;
        assert(0 <= t < 16);
        assert((t + 1) * HEAD_ROWS <= VOCAB);
    }
}

} // verus!
