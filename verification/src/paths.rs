//! Unix paths as text.
use crate::text::{
    chars_of, leads_with, opt_text, same, split, split_text, starts_with_char, text_between, texts,
};
use vstd::prelude::*;

verus! {

/// A path from the root.
pub open spec fn is_absolute(path: Seq<char>) -> bool {
    leads_with(path, '/')
}

/// A path below a directory. An absolute path stands for itself; otherwise one
/// separator stands between the two, unless the directory is empty or ends in
/// one.
pub open spec fn joined(base: Seq<char>, path: Seq<char>) -> Seq<char> {
    if is_absolute(path) {
        path
    } else if base.len() > 0 && base.last() != '/' {
        base + "/"@ + path
    } else {
        base + path
    }
}

pub fn path_is_absolute(path: &str) -> (r: bool)
    ensures
        r == is_absolute(path@),
{
    starts_with_char(path, '/')
}

pub fn join_path(base: &str, path: &str) -> (r: String)
    ensures
        r@ == joined(base@, path@),
{
    if starts_with_char(path, '/') {
        return path.to_owned();
    }
    let chars = chars_of(base);
    let mut out = base.to_owned();
    if chars.len() > 0 && chars[chars.len() - 1] != '/' {
        out.push_str("/");
    }
    out.push_str(path);
    out
}

/// The end of a path without the separators that end it.
pub open spec fn without_slashes(path: Seq<char>, end: int) -> int
    decreases end,
{
    if end > 0 && path[end - 1] == '/' {
        without_slashes(path, end - 1)
    } else {
        end
    }
}

/// Where the component that ends at `end` starts.
pub open spec fn component_start(path: Seq<char>, end: int) -> int
    decreases end,
{
    if end > 0 && path[end - 1] != '/' {
        component_start(path, end - 1)
    } else {
        end
    }
}

proof fn component_bounds(path: Seq<char>, end: int)
    requires
        0 <= end <= path.len(),
    ensures
        0 <= component_start(path, end) <= end,
        end > 0 && path[end - 1] != '/' ==> component_start(path, end) < end,
    decreases end,
{
    if end > 0 && path[end - 1] != '/' {
        component_bounds(path, end - 1);
    }
}

proof fn slash_bounds(path: Seq<char>, end: int)
    requires
        0 <= end <= path.len(),
    ensures
        0 <= without_slashes(path, end) <= end,
        without_slashes(path, end) > 0 ==> path[without_slashes(path, end) - 1] != '/',
    decreases end,
{
    if end > 0 && path[end - 1] == '/' {
        slash_bounds(path, end - 1);
    }
}

/// The last component of a path that ends at `end`: separators and single dots
/// at the end do not count, and a parent directory is no name.
pub open spec fn name_before(path: Seq<char>, end: int) -> Option<Seq<char>>
    decreases end,
{
    let stop = without_slashes(path, end);
    let start = component_start(path, stop);
    if stop <= 0 {
        None
    } else if path.subrange(start, stop) == "."@ {
        if start <= 0 || start >= end {
            None
        } else {
            name_before(path, start)
        }
    } else if path.subrange(start, stop) == ".."@ {
        None
    } else {
        Some(path.subrange(start, stop))
    }
}

/// The last component of a path.
pub open spec fn file_name(path: Seq<char>) -> Option<Seq<char>> {
    name_before(path, path.len() as int)
}

pub fn path_file_name(path: &str) -> (r: Option<String>)
    ensures
        opt_text(r) == file_name(path@),
{
    let chars = chars_of(path);
    let mut end: usize = chars.len();
    loop
        invariant
            chars@ == path@,
            end <= chars@.len(),
            file_name(path@) == name_before(path@, end as int),
        decreases end,
    {
        let mut stop: usize = end;
        while stop > 0 && chars[stop - 1] == '/'
            invariant
                stop <= end <= chars@.len(),
                chars@ == path@,
                without_slashes(path@, end as int) == without_slashes(path@, stop as int),
            decreases stop,
        {
            stop = stop - 1;
        }
        if stop == 0 {
            return None;
        }
        let mut start: usize = stop;
        while start > 0 && chars[start - 1] != '/'
            invariant
                start <= stop <= chars@.len(),
                chars@ == path@,
                component_start(path@, stop as int) == component_start(path@, start as int),
            decreases start,
        {
            start = start - 1;
        }
        proof {
            component_bounds(path@, stop as int);
            slash_bounds(path@, end as int);
        }
        let name = text_between(&chars, start, stop);
        if same(name.as_str(), ".") {
            if start == 0 {
                return None;
            }
            end = start;
        } else if same(name.as_str(), "..") {
            return None;
        } else {
            return Some(name);
        }
    }
}

/// Whether a piece between separators names a component.
pub open spec fn is_component(piece: Seq<char>) -> bool {
    piece.len() > 0 && piece != "."@
}

/// The components of a path: repeated separators and single dots do not count.
pub open spec fn components(path: Seq<char>) -> Seq<Seq<char>> {
    split(path, '/').filter(|piece: Seq<char>| is_component(piece))
}

/// Whether a path starts with a single dot, which does count.
pub open spec fn starts_here(path: Seq<char>) -> bool {
    split(path, '/').len() > 0 && split(path, '/')[0] == "."@
}

/// Whether two paths are equal component by component.
pub open spec fn same_path(a: Seq<char>, b: Seq<char>) -> bool {
    is_absolute(a) == is_absolute(b) && starts_here(a) == starts_here(b) && components(a)
        == components(b)
}

fn components_of(pieces: &Vec<String>, path: &str) -> (r: Vec<String>)
    requires
        texts(pieces@) == split(path@, '/'),
    ensures
        texts(r@) == components(path@),
{
    let ghost all = texts(pieces@);
    let ghost pred = |piece: Seq<char>| is_component(piece);
    let mut kept: Vec<String> = Vec::new();
    let mut i: usize = 0;
    proof {
        reveal(Seq::filter);
        assert(all.take(0).filter(pred) =~= Seq::empty());
        assert(texts(kept@) =~= Seq::empty());
    }
    while i < pieces.len()
        invariant
            i <= pieces@.len(),
            all == texts(pieces@),
            pred == (|piece: Seq<char>| is_component(piece)),
            texts(kept@) == all.take(i as int).filter(pred),
        decreases pieces@.len() - i,
    {
        proof {
            reveal(Seq::filter);
            assert(all.take(i + 1).drop_last() =~= all.take(i as int));
            assert(all.take(i + 1).last() == pieces@[i as int]@);
        }
        let piece = pieces[i].as_str();
        let empty = chars_of(piece).len() == 0;
        if !empty && !same(piece, ".") {
            let ghost before = kept@;
            kept.push(piece.to_owned());
            assert(texts(kept@) =~= texts(before).push(piece@));
        }
        i = i + 1;
    }
    assert(all.take(i as int) =~= all);
    kept
}

pub fn same_texts(a: &Vec<String>, b: &Vec<String>) -> (r: bool)
    ensures
        r == (texts(a@) == texts(b@)),
{
    if a.len() != b.len() {
        assert(texts(a@).len() != texts(b@).len());
        return false;
    }
    let mut i: usize = 0;
    while i < a.len()
        invariant
            i <= a@.len() == b@.len(),
            forall|j: int| 0 <= j < i ==> a@[j]@ == b@[j]@,
        decreases a@.len() - i,
    {
        if !same(a[i].as_str(), b[i].as_str()) {
            assert(texts(a@)[i as int] != texts(b@)[i as int]);
            return false;
        }
        i = i + 1;
    }
    assert(texts(a@) =~= texts(b@));
    true
}

/// Whether two paths are equal component by component.
pub fn paths_equal(a: &str, b: &str) -> (r: bool)
    ensures
        r == same_path(a@, b@),
{
    let left = split_text(a, '/');
    let right = split_text(b, '/');
    let left_here = left.len() > 0 && same(left[0].as_str(), ".");
    let right_here = right.len() > 0 && same(right[0].as_str(), ".");
    assert(left_here == starts_here(a@)) by {
        assert(texts(left@).len() == left@.len());
    }
    assert(right_here == starts_here(b@)) by {
        assert(texts(right@).len() == right@.len());
    }
    let ours = components_of(&left, a);
    let theirs = components_of(&right, b);
    path_is_absolute(a) == path_is_absolute(b) && left_here == right_here && same_texts(
        &ours,
        &theirs,
    )
}

} // verus!
