//! The greatest logits of a diagnostic reading. Logits are single-precision
//! numbers, given by their bits.
use crate::json::{json_model, member_text, text_at};
use vstd::prelude::*;

verus! {

/// One logit of a reading.
#[derive(Clone, Copy, Debug, PartialEq, Eq, Structural)]
pub struct TopLogit {
    pub token_id: u32,
    pub logit_bits: u32,
}

/// Whether the bits are those of a finite number.
pub open spec fn single_is_finite(bits: u32) -> bool {
    (bits / 0x80_0000) % 0x100 != 0xff
}

/// An integer that orders finite numbers as `<` does, with one zero.
pub open spec fn single_key(bits: u32) -> int {
    if bits >= 0x8000_0000 {
        -((bits - 0x8000_0000) as int)
    } else {
        bits as int
    }
}

pub fn key_of_single(bits: u32) -> (r: i64)
    ensures
        r == single_key(bits),
{
    if bits >= 0x8000_0000 {
        -((bits - 0x8000_0000) as i64)
    } else {
        bits as i64
    }
}

/// The first place whose logit is smaller.
pub open spec fn logit_place(list: Seq<TopLogit>, bits: u32, from: int) -> int
    decreases list.len() - from,
{
    if from >= list.len() {
        list.len() as int
    } else if single_key(bits) > single_key(list[from].logit_bits) {
        from
    } else {
        logit_place(list, bits, from + 1)
    }
}

/// A ranking with one more logit, before the first smaller one.
pub open spec fn with_logit(list: Seq<TopLogit>, item: TopLogit) -> Seq<TopLogit> {
    list.insert(logit_place(list, item.logit_bits, 0), item)
}

/// The ranking of the finite logits among the first `count`.
pub open spec fn logit_ranking(logits: Seq<u32>, count: int) -> Seq<TopLogit>
    decreases count,
{
    if count <= 0 {
        Seq::empty()
    } else {
        let before = logit_ranking(logits, count - 1);
        if single_is_finite(logits[count - 1]) {
            with_logit(
                before,
                TopLogit { token_id: (count - 1) as u32, logit_bits: logits[count - 1] },
            )
        } else {
            before
        }
    }
}

/// The first items of a sequence, as many as there are.
pub open spec fn at_most(list: Seq<TopLogit>, limit: int) -> Seq<TopLogit> {
    if list.len() <= limit {
        list
    } else {
        list.take(limit)
    }
}

proof fn place_bounds(list: Seq<TopLogit>, bits: u32, from: int)
    requires
        0 <= from <= list.len(),
    ensures
        from <= logit_place(list, bits, from) <= list.len(),
        forall|i: int|
            from <= i < logit_place(list, bits, from) ==> single_key(
                (#[trigger] list[i]).logit_bits,
            ) >= single_key(bits),
        logit_place(list, bits, from) < list.len() ==> single_key(
            list[logit_place(list, bits, from)].logit_bits,
        ) < single_key(bits),
    decreases list.len() - from,
{
    if from < list.len() && single_key(bits) <= single_key(list[from].logit_bits) {
        place_bounds(list, bits, from + 1);
    }
}

proof fn place_in_prefix(list: Seq<TopLogit>, bits: u32, from: int, limit: int)
    requires
        0 <= from <= limit <= list.len(),
    ensures
        logit_place(list.take(limit), bits, from) == if logit_place(list, bits, from) < limit {
            logit_place(list, bits, from)
        } else {
            limit
        },
    decreases list.len() - from,
{
    if from < limit {
        assert(list.take(limit)[from] == list[from]);
        if single_key(bits) <= single_key(list[from].logit_bits) {
            place_in_prefix(list, bits, from + 1, limit);
        }
    } else {
        place_bounds(list, bits, from);
    }
}

/// Keeping only the first items while inserting loses nothing of them.
proof fn truncation_commutes(list: Seq<TopLogit>, item: TopLogit, limit: int)
    requires
        0 <= limit,
    ensures
        at_most(with_logit(at_most(list, limit), item), limit) == at_most(
            with_logit(list, item),
            limit,
        ),
{
    place_bounds(list, item.logit_bits, 0);
    if list.len() > limit {
        place_in_prefix(list, item.logit_bits, 0, limit);
        let p = logit_place(list, item.logit_bits, 0);
        let short = list.take(limit);
        let q = logit_place(short, item.logit_bits, 0);
        let a = short.insert(q, item).take(limit);
        let b = list.insert(p, item).take(limit);
        assert(a =~= b);
    }
}

/// The greatest finite logits, greatest first; equal ones by token id.
pub fn select_top_logits(logits: &Vec<u32>, limit: usize) -> (r: Vec<TopLogit>)
    requires
        logits@.len() <= u32::MAX,
    ensures
        r@ == at_most(logit_ranking(logits@, logits@.len() as int), limit as int),
{
    let mut ranked: Vec<TopLogit> = Vec::new();
    let mut i: usize = 0;
    while i < logits.len()
        invariant
            i <= logits@.len() <= u32::MAX,
            ranked@.len() <= limit,
            ranked@ == at_most(logit_ranking(logits@, i as int), limit as int),
        decreases logits@.len() - i,
    {
        let bits: u32 = logits[i];
        let ghost before = ranked@;
        if (bits / 0x80_0000) % 0x100 != 0xff {
            let key: i64 = key_of_single(bits);
            let mut rank: usize = 0;
            while rank < ranked.len() && key <= key_of_single(ranked[rank].logit_bits)
                invariant
                    rank <= ranked@.len(),
                    ranked@ == before,
                    key == single_key(bits),
                    logit_place(before, bits, 0) == logit_place(before, bits, rank as int),
                decreases ranked@.len() - rank,
            {
                rank = rank + 1;
            }
            if rank < limit {
                let item = TopLogit { token_id: i as u32, logit_bits: bits };
                ranked.insert(rank, item);
                if ranked.len() > limit {
                    let _ = ranked.pop();
                }
            }
            proof {
                let item = TopLogit { token_id: i as u32, logit_bits: bits };
                truncation_commutes(logit_ranking(logits@, i as int), item, limit as int);
                let grown = with_logit(before, item);
                assert(ranked@ =~= at_most(grown, limit as int));
            }
        }
        i = i + 1;
    }
    ranked
}

/// Greater logits come first, and of equal ones the smaller token id.
pub open spec fn ranked_in_order(list: Seq<TopLogit>) -> bool {
    forall|i: int, j: int|
        0 <= i < j < list.len() ==> {
            ||| single_key(#[trigger] list[i].logit_bits) > single_key(
                #[trigger] list[j].logit_bits,
            )
            ||| single_key(list[i].logit_bits) == single_key(list[j].logit_bits)
                && list[i].token_id < list[j].token_id
        }
}

/// The ranking holds exactly the finite logits, in descending order.
pub proof fn ranking_orders_the_finite_logits(logits: Seq<u32>, count: int)
    requires
        0 <= count <= logits.len() <= u32::MAX,
    ensures
        ranked_in_order(logit_ranking(logits, count)),
        forall|k: int|
            0 <= k < logit_ranking(logits, count).len() ==> {
                let item = #[trigger] logit_ranking(logits, count)[k];
                item.token_id < count && single_is_finite(logits[item.token_id as int])
                    && item.logit_bits == logits[item.token_id as int]
            },
        forall|t: int|
            0 <= t < count && single_is_finite(#[trigger] logits[t]) ==> logit_ranking(
                logits,
                count,
            ).contains(TopLogit { token_id: t as u32, logit_bits: logits[t] }),
    decreases count,
{
    if count > 0 {
        ranking_orders_the_finite_logits(logits, count - 1);
        let before = logit_ranking(logits, count - 1);
        let whole = logit_ranking(logits, count);
        if single_is_finite(logits[count - 1]) {
            let item = TopLogit { token_id: (count - 1) as u32, logit_bits: logits[count - 1] };
            place_bounds(before, item.logit_bits, 0);
            let p = logit_place(before, item.logit_bits, 0);
            assert(whole == before.insert(p, item));
            assert forall|i: int, j: int| 0 <= i < j < whole.len() implies {
                ||| single_key(#[trigger] whole[i].logit_bits) > single_key(
                    #[trigger] whole[j].logit_bits,
                )
                ||| single_key(whole[i].logit_bits) == single_key(whole[j].logit_bits)
                    && whole[i].token_id < whole[j].token_id
            } by {
                let a = if i < p {
                    i
                } else {
                    i - 1
                };
                let b = if j < p {
                    j
                } else {
                    j - 1
                };
                if i != p {
                    assert(whole[i] == before[a]);
                }
                if j != p {
                    assert(whole[j] == before[b]);
                }
                if i == p && p < before.len() {
                    if b > p {
                        assert(single_key(before[p].logit_bits) >= single_key(
                            before[b].logit_bits,
                        ));
                    }
                }
            }
            assert forall|k: int| 0 <= k < whole.len() implies {
                let found = #[trigger] whole[k];
                found.token_id < count && single_is_finite(logits[found.token_id as int])
                    && found.logit_bits == logits[found.token_id as int]
            } by {
                if k < p {
                    assert(whole[k] == before[k]);
                } else if k > p {
                    assert(whole[k] == before[k - 1]);
                }
            }
            assert forall|t: int| 0 <= t < count && single_is_finite(#[trigger] logits[t]) implies
                whole.contains(TopLogit { token_id: t as u32, logit_bits: logits[t] }) by {
                let sought = TopLogit { token_id: t as u32, logit_bits: logits[t] };
                if t == count - 1 {
                    assert(whole[p] == sought);
                } else {
                    assert(before.contains(sought));
                    let k = choose|k: int| 0 <= k < before.len() && before[k] == sought;
                    if k < p {
                        assert(whole[k] == sought);
                    } else {
                        assert(whole[k + 1] == sought);
                    }
                }
            }
        }
    }
}

/// A label of a profile's first sample, or `unknown`.
pub fn sample_label(sample: Option<&serde_json::Value>, field: &str) -> (r: String)
    ensures
        r@ == match sample {
            Some(value) => match text_at(json_model(*value), field@) {
                Some(text) => text,
                None => "unknown"@,
            },
            None => "unknown"@,
        },
{
    match sample {
        Some(value) => match member_text(value, field) {
            Some(text) => text.to_owned(),
            None => "unknown".to_owned(),
        },
        None => "unknown".to_owned(),
    }
}

} // verus!
