//! The order of texts by their code points.
use crate::text::{chars_of, quoted, quoted_text, same, texts};
use vstd::prelude::*;

verus! {

/// Whether a text comes before another from a position on, where they agree up
/// to it.
pub open spec fn before_from(a: Seq<char>, b: Seq<char>, i: int) -> bool
    decreases a.len() - i,
{
    if i >= b.len() {
        false
    } else if i >= a.len() {
        true
    } else if a[i] != b[i] {
        a[i] < b[i]
    } else {
        before_from(a, b, i + 1)
    }
}

/// Lexicographic order; a prefix comes first.
pub open spec fn text_before(a: Seq<char>, b: Seq<char>) -> bool {
    before_from(a, b, 0)
}

pub fn comes_before(a: &str, b: &str) -> (r: bool)
    ensures
        r == text_before(a@, b@),
{
    let left = chars_of(a);
    let right = chars_of(b);
    let mut i: usize = 0;
    while i < left.len() && i < right.len()
        invariant
            i <= left@.len(),
            i <= right@.len(),
            left@ == a@,
            right@ == b@,
            text_before(a@, b@) == before_from(a@, b@, i as int),
        decreases left@.len() - i,
    {
        if left[i] != right[i] {
            return left[i] < right[i];
        }
        i = i + 1;
    }
    i < right.len()
}

pub proof fn before_irreflexive(a: Seq<char>, i: int)
    requires
        0 <= i <= a.len(),
    ensures
        !before_from(a, a, i),
    decreases a.len() - i,
{
    if i < a.len() {
        before_irreflexive(a, i + 1);
    }
}

pub proof fn before_transitive(a: Seq<char>, b: Seq<char>, c: Seq<char>, i: int)
    requires
        0 <= i,
        before_from(a, b, i),
        before_from(b, c, i),
    ensures
        before_from(a, c, i),
    decreases b.len() - i,
{
    if i < a.len() && i < b.len() && i < c.len() && a[i] == b[i] && b[i] == c[i] {
        before_transitive(a, b, c, i + 1);
    }
}

/// Two different texts that agree up to a position are ordered one way or the
/// other.
pub proof fn before_total(a: Seq<char>, b: Seq<char>, i: int)
    requires
        0 <= i <= a.len(),
        i <= b.len(),
        forall|k: int| 0 <= k < i ==> a[k] == b[k],
        a != b,
    ensures
        before_from(a, b, i) || before_from(b, a, i),
    decreases a.len() - i,
{
    if i < a.len() && i < b.len() {
        if a[i] == b[i] {
            before_total(a, b, i + 1);
        }
    } else if i == a.len() && i == b.len() {
        assert(a =~= b);
    }
}

/// Texts in ascending order, each once.
pub open spec fn ascending(list: Seq<Seq<char>>) -> bool {
    forall|i: int, j: int| 0 <= i < j < list.len() ==> text_before(#[trigger] list[i], #[trigger] list[j])
}

/// The members of a set in ascending order.
pub open spec fn is_listing(list: Seq<Seq<char>>, members: Set<Seq<char>>) -> bool {
    ascending(list) && list.to_set() == members
}

/// The ascending list of a set's members.
pub open spec fn listing(members: Set<Seq<char>>) -> Seq<Seq<char>> {
    choose|list: Seq<Seq<char>>| is_listing(list, members)
}

/// A set has one ascending list.
pub proof fn listings_are_unique(a: Seq<Seq<char>>, b: Seq<Seq<char>>)
    requires
        ascending(a),
        ascending(b),
        a.to_set() == b.to_set(),
    ensures
        a == b,
    decreases a.len(),
{
    if a.len() == 0 {
        if b.len() > 0 {
            assert(b.to_set().contains(b[0]));
            assert(a.to_set().contains(b[0]));
        }
        assert(a =~= b);
    } else {
        assert(a.to_set().contains(a[0]));
        assert(b.contains(a[0]));
        let j = choose|j: int| 0 <= j < b.len() && b[j] == a[0];
        assert(b.to_set().contains(b[0]));
        assert(a.contains(b[0]));
        let k = choose|k: int| 0 <= k < a.len() && a[k] == b[0];
        if j > 0 {
            assert(text_before(b[0], b[j]));
            if k > 0 {
                assert(text_before(a[0], a[k]));
                before_transitive(a[0], b[0], a[0], 0);
            }
            before_irreflexive(a[0], 0);
        }
        let x = a.drop_first();
        let y = b.drop_first();
        assert forall|t: Seq<char>| x.to_set().contains(t) == y.to_set().contains(t) by {
            before_irreflexive(a[0], 0);
            if x.contains(t) {
                let i = choose|i: int| 0 <= i < x.len() && x[i] == t;
                assert(a[i + 1] == t);
                assert(a.to_set().contains(t));
                assert(b.contains(t));
                let m = choose|m: int| 0 <= m < b.len() && b[m] == t;
                assert(text_before(a[0], a[i + 1]));
                assert(m > 0);
                assert(y[m - 1] == t);
            }
            if y.contains(t) {
                let i = choose|i: int| 0 <= i < y.len() && y[i] == t;
                assert(b[i + 1] == t);
                assert(b.to_set().contains(t));
                assert(a.contains(t));
                let m = choose|m: int| 0 <= m < a.len() && a[m] == t;
                assert(text_before(b[0], b[i + 1]));
                assert(m > 0);
                assert(x[m - 1] == t);
            }
        }
        assert(x.to_set() =~= y.to_set());
        assert forall|p: int, q: int| 0 <= p < q < x.len() implies text_before(
            #[trigger] x[p],
            #[trigger] x[q],
        ) by {
            assert(text_before(a[p + 1], a[q + 1]));
        }
        assert forall|p: int, q: int| 0 <= p < q < y.len() implies text_before(
            #[trigger] y[p],
            #[trigger] y[q],
        ) by {
            assert(text_before(b[p + 1], b[q + 1]));
        }
        listings_are_unique(x, y);
        assert(a =~= seq![a[0]] + x);
        assert(b =~= seq![b[0]] + y);
    }
}

/// An ascending list is the list of its members.
pub proof fn listing_of_ascending(list: Seq<Seq<char>>)
    requires
        ascending(list),
    ensures
        listing(list.to_set()) == list,
{
    assert(is_listing(list, list.to_set()));
    listings_are_unique(listing(list.to_set()), list);
}

/// Adds a text to an ascending list, in its place, unless it is there.
pub fn insert_text(list: &mut Vec<String>, text: &str) -> (fresh: bool)
    requires
        ascending(texts(old(list)@)),
    ensures
        ascending(texts(final(list)@)),
        texts(final(list)@).to_set() == texts(old(list)@).to_set().insert(text@),
        fresh == !texts(old(list)@).contains(text@),
{
    let ghost before = texts(list@);
    let mut i: usize = 0;
    while i < list.len() && comes_before(list[i].as_str(), text)
        invariant
            i <= list@.len(),
            list@ == old(list)@,
            before == texts(list@),
            forall|j: int| 0 <= j < i ==> text_before(#[trigger] before[j], text@),
        decreases list@.len() - i,
    {
        assert(before[i as int] == list@[i as int]@);
        i = i + 1;
    }
    if i < list.len() && same(list[i].as_str(), text) {
        assert(before[i as int] == text@);
        assert(before.contains(text@));
        assert(before.to_set() =~= before.to_set().insert(text@));
        return false;
    }
    proof {
        if i < before.len() {
            assert(before[i as int] == list@[i as int]@);
        }
        assert forall|j: int| i <= j < before.len() implies text_before(
            text@,
            #[trigger] before[j],
        ) by {
            before_total(text@, before[i as int], 0);
            if j > i {
                assert(text_before(before[i as int], before[j]));
                before_transitive(text@, before[i as int], before[j], 0);
            }
        }
        if before.contains(text@) {
            let k = choose|k: int| 0 <= k < before.len() && before[k] == text@;
            before_irreflexive(text@, 0);
            if k < i {
                assert(text_before(before[k], text@));
            } else {
                assert(text_before(text@, before[k]));
            }
        }
    }
    list.insert(i, text.to_owned());
    proof {
        let after = texts(list@);
        assert(after =~= before.insert(i as int, text@));
        assert forall|a: int, b: int| 0 <= a < b < after.len() implies text_before(
            #[trigger] after[a],
            #[trigger] after[b],
        ) by {
            let x = if a < i {
                a
            } else {
                a - 1
            };
            let y = if b < i {
                b
            } else {
                b - 1
            };
            if a != i {
                assert(after[a] == before[x]);
            }
            if b != i {
                assert(after[b] == before[y]);
            }
        }
        assert forall|t: Seq<char>| after.to_set().contains(t) == before.to_set().insert(
            text@,
        ).contains(t) by {
            if before.contains(t) {
                let k = choose|k: int| 0 <= k < before.len() && before[k] == t;
                if k < i {
                    assert(after[k] == t);
                } else {
                    assert(after[k + 1] == t);
                }
            }
            if t == text@ {
                assert(after[i as int] == t);
            }
            if after.contains(t) && t != text@ {
                let k = choose|k: int| 0 <= k < after.len() && after[k] == t;
                if k < i {
                    assert(before[k] == t);
                } else {
                    assert(before[k - 1] == t);
                }
            }
        }
        assert(after.to_set() =~= before.to_set().insert(text@));
    }
    true
}

/// The texts of borrowed strings.
pub open spec fn strs(v: Seq<&str>) -> Seq<Seq<char>> {
    Seq::new(v.len(), |i: int| v[i]@)
}

/// The distinct texts of a list in ascending order.
pub fn sorted_texts(v: &[&str]) -> (r: Vec<String>)
    ensures
        texts(r@) == listing(strs(v@).to_set()),
        ascending(texts(r@)),
        texts(r@).to_set() == strs(v@).to_set(),
{
    let mut list: Vec<String> = Vec::new();
    let ghost all = strs(v@);
    let mut i: usize = 0;
    assert(texts(list@) =~= Seq::empty());
    assert(all.take(0).to_set() =~= texts(list@).to_set());
    while i < v.len()
        invariant
            i <= v@.len(),
            all == strs(v@),
            ascending(texts(list@)),
            texts(list@).to_set() == all.take(i as int).to_set(),
        decreases v@.len() - i,
    {
        let _ = insert_text(&mut list, v[i]);
        proof {
            let a = all.take(i as int);
            let b = all.take(i + 1);
            assert(b =~= a.push(all[i as int]));
            assert forall|t: Seq<char>| b.to_set().contains(t) == a.to_set().insert(
                all[i as int],
            ).contains(t) by {
                if a.contains(t) {
                    let k = choose|k: int| 0 <= k < a.len() && a[k] == t;
                    assert(b[k] == t);
                }
                if t == all[i as int] {
                    assert(b[i as int] == t);
                }
                if b.contains(t) && t != all[i as int] {
                    let k = choose|k: int| 0 <= k < b.len() && b[k] == t;
                    assert(a[k] == t);
                }
            }
            assert(b.to_set() =~= a.to_set().insert(all[i as int]));
        }
        i = i + 1;
    }
    proof {
        assert(all.take(all.len() as int) =~= all);
        listing_of_ascending(texts(list@));
    }
    list
}

pub open spec fn set_items(list: Seq<Seq<char>>) -> Seq<char>
    decreases list.len(),
{
    if list.len() == 0 {
        Seq::empty()
    } else if list.len() == 1 {
        quoted(list[0])
    } else {
        set_items(list.drop_last()) + ", "@ + quoted(list.last())
    }
}

/// A set of texts as `{:?}` shows it, from its ascending list.
pub open spec fn set_text(list: Seq<Seq<char>>) -> Seq<char> {
    "{"@ + set_items(list) + "}"@
}

pub fn show_set(list: &Vec<String>) -> (r: String)
    ensures
        r@ == set_text(texts(list@)),
{
    let ghost all = texts(list@);
    let mut out = "{".to_owned();
    let mut i: usize = 0;
    assert(out@ =~= "{"@ + set_items(all.take(0)));
    while i < list.len()
        invariant
            i <= list@.len(),
            all == texts(list@),
            out@ == "{"@ + set_items(all.take(i as int)),
        decreases list@.len() - i,
    {
        assert(all[i as int] == list@[i as int]@);
        assert(all.take(i + 1).drop_last() =~= all.take(i as int));
        if i > 0 {
            out.push_str(", ");
        }
        let item = quoted_text(list[i].as_str());
        out.push_str(item.as_str());
        i = i + 1;
        assert(out@ =~= "{"@ + set_items(all.take(i as int)));
    }
    assert(all.take(all.len() as int) =~= all);
    out.push_str("}");
    out
}

} // verus!
