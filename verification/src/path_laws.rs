//! How paths are joined, named and told apart, and how digests are written.
use crate::paths::{
    component_start, components, file_name, is_absolute, is_component, joined, same_path,
    without_slashes,
};
use crate::text::{hex, hex_char, is_lower_hex_digit, lowered, split};
use crate::text_laws::separators_part_the_pieces;
use vstd::prelude::*;

verus! {

/// Whether a text is the name of a file: not empty, without a slash, and neither of the
/// two names that stand for directories.
pub open spec fn is_name(name: Seq<char>) -> bool {
    &&& name.len() > 0
    &&& !name.contains('/')
    &&& name != "."@
    &&& name != ".."@
}

proof fn name_starts(path: Seq<char>, from: int, end: int)
    requires
        0 <= from <= end <= path.len(),
        forall|i: int| from <= i < end ==> #[trigger] path[i] != '/',
        from == 0 || path[from - 1] == '/',
    ensures
        component_start(path, end) == from,
    decreases end - from,
{
    if from < end {
        assert(path[end - 1] != '/');
        name_starts(path, from, end - 1);
    }
}

/// A path's name is its last component; slashes at its end do not change that.
pub proof fn paths_are_named_by_their_last_component(base: Seq<char>, name: Seq<char>)
    requires
        is_name(name),
    ensures
        file_name(name) == Some(name),
        file_name(base + "/"@ + name) == Some(name),
        file_name(base + "/"@ + name + "/"@) == Some(name),
{
    reveal_strlit("/");
    assert("/"@.len() == 1 && "/"@[0] == '/');
    assert forall|i: int| 0 <= i < name.len() implies #[trigger] name[i] != '/' by {
        if name[i] == '/' {
            assert(name.contains('/'));
        }
    }
    let n = name.len() as int;
    assert(name[n - 1] != '/');
    assert(without_slashes(name, n) == n);
    name_starts(name, 0, n);
    assert(name.subrange(0, n) =~= name);
    let path = base + "/"@ + name;
    let from = base.len() as int + 1;
    let end = path.len() as int;
    assert(forall|i: int| from <= i < end ==> #[trigger] path[i] == name[i - from]);
    assert(path[from - 1] == '/');
    assert(path[end - 1] != '/');
    assert(without_slashes(path, end) == end);
    name_starts(path, from, end);
    assert(path.subrange(from, end) =~= name);
    let longer = path + "/"@;
    assert(forall|i: int| 0 <= i < end ==> #[trigger] longer[i] == path[i]);
    assert(longer[end] == '/');
    assert(longer[end - 1] != '/');
    assert(without_slashes(longer, end) == end);
    assert(without_slashes(longer, end + 1) == end);
    assert forall|i: int| from <= i < end implies #[trigger] longer[i] != '/' by {
        assert(longer[i] == path[i]);
        assert(path[i] == name[i - from]);
    }
    name_starts(longer, from, end);
    assert(longer.subrange(from, end) =~= name);
}

/// What is joined to a directory lies in it under its own name, whether or not the
/// directory ends in a slash; an absolute path stands for itself.
pub proof fn joined_paths_keep_their_name(base: Seq<char>, name: Seq<char>, path: Seq<char>)
    requires
        is_name(name),
    ensures
        is_absolute(path) ==> joined(base, path) == path,
        file_name(joined(base, name)) == Some(name),
        base.len() > 0 ==> base.is_prefix_of(joined(base, name)),
        base.len() > 0 ==> is_absolute(joined(base, name)) == is_absolute(base),
        joined(Seq::empty(), name) == name,
{
    reveal_strlit("/");
    assert("/"@.len() == 1 && "/"@[0] == '/');
    if is_absolute(name) {
        assert(name.contains('/'));
    }
    paths_are_named_by_their_last_component(base, name);
    if base.len() > 0 {
        assert(base =~= joined(base, name).subrange(0, base.len() as int));
        if base.last() == '/' {
            let stem = base.drop_last();
            paths_are_named_by_their_last_component(stem, name);
            assert(stem + "/"@ + name =~= base + name);
        }
    }
    assert(Seq::<char>::empty() + name =~= name);
}

/// The directories that a path may end in name no file.
pub proof fn directories_name_no_file()
    ensures
        file_name(Seq::empty()) is None,
        file_name("/"@) is None,
        file_name(".."@) is None,
{
    reveal_strlit("/");
    reveal_strlit("..");
    reveal_strlit(".");
    assert(without_slashes("/"@, 0) == 0);
    assert(without_slashes("/"@, 1) == 0);
    let up = ".."@;
    assert(up.len() == 2 && up[0] == '.' && up[1] == '.');
    assert(without_slashes(up, 2) == 2);
    name_starts(up, 0, 2);
    assert(up.subrange(0, 2) =~= up);
    assert("."@.len() == 1);
}

// ---------------------------------------------------------------------------
// Digests
// ---------------------------------------------------------------------------

/// The value of a hexadecimal digit.
pub open spec fn digit_value(c: char) -> int {
    if '0' <= c <= '9' {
        c as int - '0' as int
    } else {
        c as int - 'a' as int + 10
    }
}

/// A byte is written in two digits, the higher first, of which it is made up again.
pub proof fn bytes_are_written_in_two_digits(bytes: Seq<u8>, i: int)
    requires
        0 <= i < bytes.len(),
    ensures
        hex(bytes).len() == 2 * bytes.len(),
        is_lower_hex_digit(hex(bytes)[2 * i]),
        is_lower_hex_digit(hex(bytes)[2 * i + 1]),
        16 * digit_value(hex(bytes)[2 * i]) + digit_value(hex(bytes)[2 * i + 1]) == bytes[i],
{
    assert((2 * i) % 2 == 0 && (2 * i) / 2 == i);
    assert((2 * i + 1) % 2 == 1 && (2 * i + 1) / 2 == i);
    let high = bytes[i] as nat / 16;
    let low = bytes[i] as nat % 16;
    assert(hex(bytes)[2 * i] == hex_char(high));
    assert(hex(bytes)[2 * i + 1] == hex_char(low));
    assert(high < 16 && low < 16);
}

/// Only capital letters of the alphabet are lowered, each to its own.
pub proof fn only_capitals_are_lowered(s: Seq<char>, i: int)
    requires
        0 <= i < s.len(),
    ensures
        lowered(s).len() == s.len(),
        'A' <= s[i] <= 'Z' ==> lowered(s)[i] as int - 'a' as int == s[i] as int - 'A' as int,
        !('A' <= s[i] <= 'Z') ==> lowered(s)[i] == s[i],
        lowered(lowered(s)) == lowered(s),
{
    assert(lowered(lowered(s)) =~= lowered(s));
}

// ---------------------------------------------------------------------------
// Components
// ---------------------------------------------------------------------------

/// A path's components are the parts between its slashes, but for those that are empty
/// or stand for the directory itself.
pub proof fn components_leave_out_what_stands_still(a: Seq<char>, b: Seq<char>)
    requires
        !a.contains('/'),
    ensures
        a.len() > 0 && a != "."@ ==> components(a + seq!['/'] + b) == seq![a] + components(b),
        a.len() == 0 || a == "."@ ==> components(a + seq!['/'] + b) == components(b),
        a.len() > 0 && a != "."@ ==> components(a) == seq![a],
        a.len() == 0 || a == "."@ ==> components(a) == Seq::<Seq<char>>::empty(),
{
    let pred = |piece: Seq<char>| is_component(piece);
    separators_part_the_pieces(a, '/', b);
    let one = seq![a];
    Seq::filter_distributes_over_add(one, split(b, '/'), pred);
    reveal(Seq::filter);
    assert(one.last() == a);
    assert(one.drop_last() =~= Seq::<Seq<char>>::empty());
    assert(one.drop_last().filter(pred) =~= Seq::<Seq<char>>::empty());
    if a.len() > 0 && a != "."@ {
        assert(one.filter(pred) =~= one);
    } else {
        assert(one.filter(pred) =~= Seq::<Seq<char>>::empty());
        assert(Seq::<Seq<char>>::empty() + components(b) =~= components(b));
    }
}

/// Two paths are the same where they have the same components, both or neither from the
/// root and both or neither from here; a doubled slash changes nothing.
pub proof fn paths_are_the_same_by_component(a: Seq<char>, b: Seq<char>)
    ensures
        same_path(a, a),
        same_path(a, b) <==> same_path(b, a),
        same_path(a, b) ==> is_absolute(a) == is_absolute(b) && components(a) == components(b),
        is_absolute(a) != is_absolute(b) ==> !same_path(a, b),
        same_path(seq!['/'] + seq!['/'] + b, seq!['/'] + b),
{
    let e = Seq::<char>::empty();
    reveal_strlit(".");
    assert("."@.len() == 1 && "."@[0] == '.');
    let once = seq!['/'] + b;
    let twice = seq!['/'] + seq!['/'] + b;
    assert(once =~= e + seq!['/'] + b);
    assert(twice =~= e + seq!['/'] + once);
    components_leave_out_what_stands_still(e, b);
    components_leave_out_what_stands_still(e, once);
    separators_part_the_pieces(e, '/', b);
    separators_part_the_pieces(e, '/', once);
    assert(split(once, '/')[0] == e && split(twice, '/')[0] == e);
}

} // verus!
