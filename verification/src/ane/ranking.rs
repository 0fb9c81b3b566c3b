//! The five best logits of a vocabulary scan: on equal logits the earlier token
//! stays ahead, so the first place is the greedy choice.
use vstd::prelude::*;

verus! {

/// A token with the ordering key of its logit.
#[derive(Clone, Copy, Debug, PartialEq, Eq, Structural)]
pub struct Ranked {
    pub token: u32,
    pub key: i32,
}

/// The first place whose key a logit exceeds.
pub open spec fn place(top: Seq<Ranked>, key: i32, from: int) -> int
    decreases top.len() - from,
{
    if from >= top.len() {
        top.len() as int
    } else if key > top[from].key {
        from
    } else {
        place(top, key, from + 1)
    }
}

/// The ranking after one more token: it enters before the first smaller key,
/// and the last place drops out.
pub open spec fn observed(top: Seq<Ranked>, item: Ranked) -> Seq<Ranked> {
    let p = place(top, item.key, 0);
    if p >= top.len() {
        top
    } else {
        top.insert(p, item).drop_last()
    }
}

/// The ranking after a scan.
pub open spec fn ranking(start: Seq<Ranked>, items: Seq<Ranked>) -> Seq<Ranked>
    decreases items.len(),
{
    if items.len() == 0 {
        start
    } else {
        observed(ranking(start, items.drop_last()), items.last())
    }
}

pub open spec fn descending(top: Seq<Ranked>) -> bool {
    forall|i: int, j: int| 0 <= i < j < top.len() ==> top[i].key >= top[j].key
}

/// The five best tokens so far.
#[derive(Debug)]
pub struct TopFive {
    pub places: Vec<Ranked>,
}

impl TopFive {
    pub open spec fn view(&self) -> Seq<Ranked> {
        self.places@
    }

    /// Five empty places, below every logit.
    pub open spec fn blank() -> Seq<Ranked> {
        Seq::new(5, |i: int| Ranked { token: u32::MAX, key: i32::MIN })
    }

    pub fn new() -> (r: TopFive)
        ensures
            r@ == TopFive::blank(),
    {
        let mut places: Vec<Ranked> = Vec::new();
        let mut i: usize = 0;
        while i < 5
            invariant
                i <= 5,
                places@ =~= Seq::new(i as nat, |k: int| Ranked { token: u32::MAX, key: i32::MIN }),
            decreases 5 - i,
        {
            places.push(Ranked { token: u32::MAX, key: i32::MIN });
            i = i + 1;
        }
        TopFive { places }
    }

    /// Ranks one more token by its logit's key.
    pub fn observe(&mut self, token: u32, key: i32)
        ensures
            final(self)@ == observed(old(self)@, Ranked { token, key }),
    {
        let mut rank: usize = 0;
        while rank < self.places.len() && key <= self.places[rank].key
            invariant
                rank <= self.places@.len(),
                self.places@ == old(self).places@,
                place(self.places@, key, 0) == place(self.places@, key, rank as int),
            decreases self.places@.len() - rank,
        {
            rank = rank + 1;
        }
        if rank < self.places.len() {
            self.places.insert(rank, Ranked { token, key });
            let _ = self.places.pop();
        }
    }
}

proof fn place_bounds(top: Seq<Ranked>, key: i32, from: int)
    requires
        0 <= from <= top.len(),
    ensures
        from <= place(top, key, from) <= top.len(),
        forall|i: int| from <= i < place(top, key, from) ==> top[i].key >= key,
        place(top, key, from) < top.len() ==> top[place(top, key, from)].key < key,
    decreases top.len() - from,
{
    if from < top.len() && key <= top[from].key {
        place_bounds(top, key, from + 1);
    }
}

proof fn observed_keeps(top: Seq<Ranked>, item: Ranked)
    requires
        descending(top),
    ensures
        observed(top, item).len() == top.len(),
        descending(observed(top, item)),
        top.len() > 0 ==> observed(top, item)[0] == if item.key > top[0].key {
            item
        } else {
            top[0]
        },
        forall|i: int|
            0 <= i < top.len() ==> #[trigger] observed(top, item)[i].key >= top[i].key,
{
    place_bounds(top, item.key, 0);
    let p = place(top, item.key, 0);
    if p < top.len() {
        let grown = top.insert(p, item);
        let result = observed(top, item);
        assert(result =~= grown.drop_last());
        assert forall|i: int| 0 <= i < top.len() implies #[trigger] result[i] == if i < p {
            top[i]
        } else if i == p {
            item
        } else {
            top[i - 1]
        } by {}
    }
}

/// A scan keeps its ranking in descending order and ranks first the earliest
/// of the tokens whose logit is greatest.
pub proof fn first_place_is_greedy(items: Seq<Ranked>)
    requires
        items.len() > 0,
        forall|i: int| 0 <= i < items.len() ==> (#[trigger] items[i]).key > i32::MIN,
    ensures
        ranking(TopFive::blank(), items).len() == 5,
        descending(ranking(TopFive::blank(), items)),
        exists|w: int|
            #![trigger items[w]]
            0 <= w < items.len() && ranking(TopFive::blank(), items)[0] == items[w] && (forall|
                i: int,
            |
                0 <= i < items.len() ==> (#[trigger] items[i]).key <= items[w].key) && (forall|
                i: int,
            |
                0 <= i < w ==> (#[trigger] items[i]).key < items[w].key),
    decreases items.len(),
{
    let before = items.drop_last();
    let last = items.last();
    let top = ranking(TopFive::blank(), before);
    if before.len() == 0 {
        assert(top == TopFive::blank());
        observed_keeps(top, last);
        assert(items[0] == last);
    } else {
        assert forall|i: int| 0 <= i < before.len() implies (#[trigger] before[i]).key
            > i32::MIN by {
            assert(before[i] == items[i]);
        }
        first_place_is_greedy(before);
        let w = choose|w: int|
            #![trigger before[w]]
            0 <= w < before.len() && top[0] == before[w] && (forall|i: int|
                0 <= i < before.len() ==> (#[trigger] before[i]).key <= before[w].key) && (forall|
                i: int,
            |
                0 <= i < w ==> (#[trigger] before[i]).key < before[w].key);
        observed_keeps(top, last);
        let v = if last.key > top[0].key {
            items.len() - 1
        } else {
            w
        };
        assert(items[w] == before[w]);
        assert forall|i: int| 0 <= i < items.len() implies (#[trigger] items[i]).key
            <= items[v].key by {
            if i < before.len() {
                assert(items[i] == before[i]);
            }
        }
        assert forall|i: int| 0 <= i < v implies (#[trigger] items[i]).key < items[v].key by {
            assert(items[i] == before[i]);
        }
        assert(ranking(TopFive::blank(), items)[0] == items[v]);
    }
}

/// No token outside the ranking beats one inside it.
pub proof fn ranked_beat_the_rest(start: Seq<Ranked>, items: Seq<Ranked>, i: int)
    requires
        start.len() == 5,
        descending(start),
        0 <= i < items.len(),
    ensures
        descending(ranking(start, items)),
        ranking(start, items).len() == 5,
        ranking(start, items).contains(items[i]) || items[i].key <= ranking(start, items)[4].key,
    decreases items.len(),
{
    let before = items.drop_last();
    let last = items.last();
    ranking_sorted(start, before);
    let top = ranking(start, before);
    observed_keeps(top, last);
    let result = ranking(start, items);
    place_bounds(top, last.key, 0);
    let p = place(top, last.key, 0);
    if i < before.len() {
        assert(before[i] == items[i]);
        ranked_beat_the_rest(start, before, i);
        if top.contains(items[i]) {
            let k = choose|k: int| 0 <= k < top.len() && top[k] == items[i];
            if p < 5 {
                let grown = top.insert(p, last);
                assert(result =~= grown.drop_last());
                if k < p {
                    assert(result[k] == items[i]);
                } else if k < 4 {
                    assert(result[k + 1] == items[i]);
                } else {
                    assert(result[4].key >= top[4].key);
                }
            } else {
                assert(result[k] == items[i]);
            }
        } else {
            assert(result[4].key >= top[4].key);
        }
    } else {
        if p < 5 {
            let grown = top.insert(p, last);
            assert(result =~= grown.drop_last());
            assert(result[p] == last);
        } else {
            assert(top[4].key >= last.key);
        }
    }
}

proof fn ranking_sorted(start: Seq<Ranked>, items: Seq<Ranked>)
    requires
        start.len() == 5,
        descending(start),
    ensures
        ranking(start, items).len() == 5,
        descending(ranking(start, items)),
    decreases items.len(),
{
    if items.len() > 0 {
        ranking_sorted(start, items.drop_last());
        observed_keeps(ranking(start, items.drop_last()), items.last());
    }
}

/// A scan in the order of the tokens.
pub open spec fn scanned(items: Seq<Ranked>) -> bool {
    &&& forall|i: int, j: int|
        0 <= i < j < items.len() ==> (#[trigger] items[i]).token < (#[trigger] items[j]).token
    &&& forall|i: int| 0 <= i < items.len() ==> (#[trigger] items[i]).key > i32::MIN
}

/// Places are blank, or hold tokens of the scan.
pub open spec fn taken_from(top: Seq<Ranked>, items: Seq<Ranked>) -> bool {
    forall|k: int|
        #![trigger top[k]]
        0 <= k < top.len() ==> top[k].key == i32::MIN || items.contains(top[k])
}

/// Of two places that are not blank, the earlier has the greater logit, or an equal
/// one and the smaller token.
pub open spec fn ordered(top: Seq<Ranked>) -> bool {
    forall|i: int, j: int|
        0 <= i < j < top.len() && (#[trigger] top[j]).key > i32::MIN ==> (#[trigger] top[i]).key
            > top[j].key || (top[i].key == top[j].key && top[i].token < top[j].token)
}

/// A scan in the order of the tokens ranks distinct tokens, by falling logits and,
/// where logits are equal, in the order of the tokens, at every place.
pub proof fn equal_logits_keep_token_order(items: Seq<Ranked>)
    requires
        scanned(items),
    ensures
        taken_from(ranking(TopFive::blank(), items), items),
        ordered(ranking(TopFive::blank(), items)),
        forall|i: int, j: int|
            #![trigger ranking(TopFive::blank(), items)[i], ranking(TopFive::blank(), items)[j]]
            0 <= i < j < 5 && ranking(TopFive::blank(), items)[j].key > i32::MIN ==> ranking(
                TopFive::blank(),
                items,
            )[i].token != ranking(TopFive::blank(), items)[j].token,
    decreases items.len(),
{
    let result = ranking(TopFive::blank(), items);
    ranking_sorted(TopFive::blank(), items);
    if items.len() > 0 {
        let before = items.drop_last();
        let last = items.last();
        let top = ranking(TopFive::blank(), before);
        assert forall|i: int, j: int| 0 <= i < j < before.len() implies (
        #[trigger] before[i]).token < (#[trigger] before[j]).token by {
            assert(before[i] == items[i] && before[j] == items[j]);
        }
        assert forall|i: int| 0 <= i < before.len() implies (#[trigger] before[i]).key
            > i32::MIN by {
            assert(before[i] == items[i]);
        }
        equal_logits_keep_token_order(before);
        ranking_sorted(TopFive::blank(), before);
        place_bounds(top, last.key, 0);
        let p = place(top, last.key, 0);
        assert forall|k: int| 0 <= k < top.len() && (#[trigger] top[k]).key > i32::MIN implies top[k].token
            < last.token && items.contains(top[k]) by {
            let w = choose|w: int| 0 <= w < before.len() && before[w] == top[k];
            assert(items[w] == before[w]);
            assert(items[items.len() - 1] == last);
        }
        assert(items.contains(last)) by {
            assert(items[items.len() - 1] == last);
        }
        if p < top.len() {
            assert(result =~= top.insert(p, last).drop_last());
            assert forall|i: int| 0 <= i < 5 implies #[trigger] result[i] == if i < p {
                top[i]
            } else if i == p {
                last
            } else {
                top[i - 1]
            } by {}
        }
    }
    assert forall|i: int, j: int|
        #![trigger result[i], result[j]]
        0 <= i < j < 5 && result[j].key > i32::MIN implies result[i].token != result[j].token by {
        if result[i].key > result[j].key {
            let v = choose|v: int| 0 <= v < items.len() && items[v] == result[i];
            let w = choose|w: int| 0 <= w < items.len() && items[w] == result[j];
            assert(items.contains(result[i]) && items.contains(result[j]));
            if v < w {
                assert(items[v].token < items[w].token);
            } else {
                assert(v > w);
                assert(items[w].token < items[v].token);
            }
        }
    }
}

} // verus!
