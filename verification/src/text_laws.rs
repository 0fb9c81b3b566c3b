//! What numerals, pieces, lines and trimmed texts are, whichever way they are read.
use crate::text::{
    after_prefix, chomped, decimal, digits_value, drop_spaces, find_char, is_digit, is_space, lines,
    lines_from, numeral, pieces, skip_spaces, split, trimmed, NumeralFault,
};
use crate::order::{before_from, text_before};
use vstd::prelude::*;

verus! {

// ---------------------------------------------------------------------------
// Numerals
// ---------------------------------------------------------------------------

proof fn digits_bound(s: Seq<char>, i: int, acc: nat, max: nat)
    requires
        acc <= max,
    ensures
        digits_value(s, i, acc, max) matches Ok(v) ==> acc <= v <= max,
    decreases s.len() - i,
{
    if i < s.len() && is_digit(s[i]) && acc * 10 + (s[i] as nat - 48) <= max {
        digits_bound(s, i + 1, (acc * 10 + (s[i] as nat - 48)) as nat, max);
    }
}

/// A numeral that is read is at most the bound it was read under.
pub proof fn numerals_are_bounded(s: Seq<char>, max: nat)
    ensures
        numeral(s, max) matches Ok(v) ==> v <= max,
{
    digits_bound(s, 0, 0, max);
    digits_bound(s, 1, 0, max);
}

proof fn digits_extend(s: Seq<char>, c: char, i: int, acc: nat, max: nat)
    requires
        0 <= i <= s.len(),
        acc <= max,
    ensures
        digits_value(s, i, acc, max) matches Ok(v) ==> digits_value(s.push(c), i, acc, max) == if !(
        '0' <= c <= '9') {
            Err::<nat, NumeralFault>(NumeralFault::InvalidDigit)
        } else if v * 10 + (c as nat - '0' as nat) > max {
            Err(NumeralFault::TooLarge)
        } else {
            Ok((v * 10 + (c as nat - '0' as nat)) as nat)
        },
        digits_value(s, i, acc, max) matches Err(f) ==> digits_value(s.push(c), i, acc, max) == Err::<
            nat,
            NumeralFault,
        >(f),
    decreases s.len() - i,
{
    let t = s.push(c);
    if i < s.len() {
        assert(t[i] == s[i]);
        if is_digit(s[i]) && acc * 10 + (s[i] as nat - 48) <= max {
            digits_extend(s, c, i + 1, (acc * 10 + (s[i] as nat - 48)) as nat, max);
        }
    } else {
        assert(t[i] == c);
        let v = (acc * 10 + (c as nat - 48)) as nat;
        assert(digits_value(t, i + 1, v, max) == Ok::<nat, NumeralFault>(v));
    }
}

/// Numerals are positional: one more digit makes a number ten times as large and
/// adds the digit; a single digit is itself. What carries a number past its bound is
/// too large, and what is no digit is refused.
pub proof fn numerals_are_positional(s: Seq<char>, c: char, max: nat)
    requires
        max >= 9,
    ensures
        numeral(Seq::empty(), max) == Err::<nat, NumeralFault>(NumeralFault::Empty),
        '0' <= c <= '9' ==> numeral(seq![c], max) == Ok::<nat, NumeralFault>(
            (c as nat - '0' as nat) as nat,
        ),
        '0' <= c <= '9' ==> numeral(seq!['+', c], max) == Ok::<nat, NumeralFault>(
            (c as nat - '0' as nat) as nat,
        ),
        numeral(s, max) matches Ok(v) ==> numeral(s.push(c), max) == if !('0' <= c <= '9') {
            Err::<nat, NumeralFault>(NumeralFault::InvalidDigit)
        } else if v * 10 + (c as nat - '0' as nat) > max {
            Err(NumeralFault::TooLarge)
        } else {
            Ok((v * 10 + (c as nat - '0' as nat)) as nat)
        },
{
    let one = seq![c];
    let plus = seq!['+', c];
    if '0' <= c <= '9' {
        let v = (c as nat - 48) as nat;
        assert(one[0] == c && plus[0] == '+' && plus[1] == c);
        assert(digits_value(one, 1, v, max) == Ok::<nat, NumeralFault>(v));
        assert(digits_value(plus, 2, v, max) == Ok::<nat, NumeralFault>(v));
        assert(digits_value(plus, 1, 0, max) == digits_value(plus, 2, v, max));
        assert(digits_value(one, 0, 0, max) == digits_value(one, 1, v, max));
    }
    if numeral(s, max) is Ok {
        assert(s.push(c)[0] == s[0]);
        if s[0] == '+' {
            digits_extend(s, c, 1, 0, max);
        } else {
            digits_extend(s, c, 0, 0, max);
        }
    }
}

/// A rendered number is made of digits, and of no more than it needs: it does not
/// begin with a zero unless it is zero.
pub proof fn decimals_are_shortest(n: nat)
    ensures
        decimal(n).len() > 0,
        forall|i: int| 0 <= i < decimal(n).len() ==> '0' <= #[trigger] decimal(n)[i] <= '9',
        decimal(n)[0] == '0' <==> n == 0,
    decreases n,
{
    if n >= 10 {
        decimals_are_shortest(n / 10);
        assert(decimal(n)[0] == decimal(n / 10)[0]);
    }
}

// ---------------------------------------------------------------------------
// Pieces and lines
// ---------------------------------------------------------------------------

proof fn found_at(s: Seq<char>, c: char, from: int)
    requires
        0 <= from <= s.len(),
    ensures
        from <= find_char(s, c, from) <= s.len(),
        find_char(s, c, from) < s.len() ==> s[find_char(s, c, from)] == c,
        forall|i: int| from <= i < find_char(s, c, from) ==> s[i] != c,
    decreases s.len() - from,
{
    if from < s.len() && s[from] != c {
        found_at(s, c, from + 1);
    }
}

proof fn found_later(s: Seq<char>, t: Seq<char>, c: char, k: int, from: int)
    requires
        0 <= k <= s.len(),
        t == s.subrange(k, s.len() as int),
        0 <= from <= t.len(),
    ensures
        find_char(s, c, k + from) == k + find_char(t, c, from),
    decreases t.len() - from,
{
    if from < t.len() {
        assert(t[from] == s[k + from]);
        if t[from] != c {
            found_later(s, t, c, k, from + 1);
        }
    }
}

proof fn pieces_later(s: Seq<char>, t: Seq<char>, c: char, k: int, from: int)
    requires
        0 <= k <= s.len(),
        t == s.subrange(k, s.len() as int),
        0 <= from <= t.len(),
    ensures
        pieces(s, c, k + from) == pieces(t, c, from),
    decreases t.len() - from,
{
    found_later(s, t, c, k, from);
    found_at(t, c, from);
    let at = find_char(t, c, from);
    if at < t.len() {
        pieces_later(s, t, c, k, at + 1);
        assert(s.subrange(k + from, k + at) =~= t.subrange(from, at));
    } else {
        assert(s.subrange(k + from, s.len() as int) =~= t.subrange(from, t.len() as int));
    }
}

/// A text without the separator is one piece; otherwise the first piece ends at the
/// first separator, and the others are those of what follows it.
pub proof fn separators_part_the_pieces(a: Seq<char>, c: char, b: Seq<char>)
    requires
        !a.contains(c),
    ensures
        split(a, c) == seq![a],
        split(a + seq![c] + b, c) == seq![a] + split(b, c),
{
    found_at(a, c, 0);
    if find_char(a, c, 0) < a.len() {
        assert(a.contains(c));
    }
    assert(a.subrange(0, a.len() as int) =~= a);
    let s = a + seq![c] + b;
    found_at(s, c, 0);
    let k = find_char(s, c, 0);
    assert(s[a.len() as int] == c);
    assert(k == a.len()) by {
        if k < a.len() {
            assert(a[k] == s[k]);
            assert(a.contains(c));
        }
    }
    assert(s.subrange(0, k) =~= a);
    assert(b =~= s.subrange(k + 1, s.len() as int));
    pieces_later(s, b, c, k + 1, 0);
}

proof fn lines_later(s: Seq<char>, t: Seq<char>, k: int, from: int)
    requires
        0 <= k <= s.len(),
        t == s.subrange(k, s.len() as int),
        0 <= from <= t.len(),
    ensures
        lines_from(s, k + from) == lines_from(t, from),
    decreases t.len() - from,
{
    found_later(s, t, '\n', k, from);
    found_at(t, '\n', from);
    let at = find_char(t, '\n', from);
    if from < t.len() {
        if at < t.len() {
            lines_later(s, t, k, at + 1);
            assert(s.subrange(k + from, k + at) =~= t.subrange(from, at));
        } else {
            assert(s.subrange(k + from, s.len() as int) =~= t.subrange(from, t.len() as int));
        }
    }
}

/// A line ends at a line feed, or at a carriage return and a line feed, and the next
/// ones are those of what follows; an empty rest is no line.
pub proof fn line_feeds_end_the_lines(a: Seq<char>, b: Seq<char>)
    requires
        !a.contains('\n'),
    ensures
        lines(Seq::empty()) == Seq::<Seq<char>>::empty(),
        a.len() > 0 ==> lines(a) == seq![a],
        a.len() == 0 || a.last() != '\r' ==> lines(a + seq!['\n'] + b) == seq![a] + lines(b),
        lines(a + seq!['\r', '\n'] + b) == seq![a] + lines(b),
{
    found_at(a, '\n', 0);
    if find_char(a, '\n', 0) < a.len() {
        assert(a.contains('\n'));
    }
    assert(a.subrange(0, a.len() as int) =~= a);
    line_ends(a, b);
    let r = a.push('\r');
    assert(!r.contains('\n')) by {
        if r.contains('\n') {
            let i = choose|i: int| 0 <= i < r.len() && r[i] == '\n';
            assert(a[i] == '\n');
        }
    }
    line_ends(r, b);
    assert(r + seq!['\n'] + b =~= a + seq!['\r', '\n'] + b);
    assert(r.drop_last() =~= a);
}

proof fn line_ends(a: Seq<char>, b: Seq<char>)
    requires
        !a.contains('\n'),
    ensures
        lines(a + seq!['\n'] + b) == seq![chomped(a)] + lines(b),
{
    let s = a + seq!['\n'] + b;
    found_at(s, '\n', 0);
    let k = find_char(s, '\n', 0);
    assert(s[a.len() as int] == '\n');
    assert(k == a.len()) by {
        if k < a.len() {
            assert(a[k] == s[k]);
            assert(a.contains('\n'));
        }
    }
    assert(s.subrange(0, k) =~= a);
    assert(b =~= s.subrange(k + 1, s.len() as int));
    lines_later(s, b, k + 1, 0);
}

// ---------------------------------------------------------------------------
// White space and prefixes
// ---------------------------------------------------------------------------

proof fn spaces_are_skipped(s: Seq<char>, from: int)
    requires
        0 <= from <= s.len(),
    ensures
        from <= skip_spaces(s, from) <= s.len(),
        forall|i: int| from <= i < skip_spaces(s, from) ==> is_space(s[i]),
        skip_spaces(s, from) < s.len() ==> !is_space(s[skip_spaces(s, from)]),
    decreases s.len() - from,
{
    if from < s.len() && is_space(s[from]) {
        spaces_are_skipped(s, from + 1);
    }
}

proof fn spaces_are_dropped(s: Seq<char>, from: int, end: int)
    requires
        0 <= from <= end <= s.len(),
    ensures
        from <= drop_spaces(s, from, end) <= end,
        forall|i: int| drop_spaces(s, from, end) <= i < end ==> is_space(s[i]),
        from < drop_spaces(s, from, end) ==> !is_space(s[drop_spaces(s, from, end) - 1]),
    decreases end - from,
{
    if from < end && is_space(s[end - 1]) {
        spaces_are_dropped(s, from, end - 1);
    }
}

/// A trimmed text is what stands between white space: nothing else was taken off
/// either end, and neither end of it is white space.
pub proof fn only_outer_space_is_trimmed(s: Seq<char>)
    ensures
        exists|before: Seq<char>, after: Seq<char>|
            {
                &&& s == #[trigger] (before + trimmed(s) + after)
                &&& forall|i: int| 0 <= i < before.len() ==> is_space(before[i])
                &&& forall|i: int| 0 <= i < after.len() ==> is_space(after[i])
            },
        trimmed(s).len() > 0 ==> !is_space(trimmed(s)[0]) && !is_space(trimmed(s).last()),
{
    let from = skip_spaces(s, 0);
    spaces_are_skipped(s, 0);
    let end = drop_spaces(s, from, s.len() as int);
    spaces_are_dropped(s, from, s.len() as int);
    let before = s.subrange(0, from);
    let after = s.subrange(end, s.len() as int);
    assert(s =~= before + trimmed(s) + after);
}

/// The white space of a text is Unicode's; in ASCII, the space and the controls from
/// tab to carriage return.
pub proof fn ascii_white_space(c: char)
    requires
        (c as nat) < 0x80,
    ensures
        is_space(c) <==> c == ' ' || c == '\t' || c == '\n' || c == '\r' || c as nat == 0xb || c
            as nat == 0xc,
{
}

/// A prefix is taken off exactly where the text begins with it.
pub proof fn prefixes_are_taken_off(p: Seq<char>, rest: Seq<char>, s: Seq<char>)
    ensures
        after_prefix(p + rest, p) == Some(rest),
        after_prefix(s, p) matches Some(found) ==> s == p + found,
{
    assert(p =~= (p + rest).subrange(0, p.len() as int));
    assert(p.is_prefix_of(p + rest));
    assert((p + rest).subrange(p.len() as int, (p + rest).len() as int) =~= rest);
    if after_prefix(s, p) is Some {
        assert(s =~= p + s.subrange(p.len() as int, s.len() as int));
    }
}

// ---------------------------------------------------------------------------
// Order
// ---------------------------------------------------------------------------

proof fn alike_before(a: Seq<char>, s: Seq<char>, t: Seq<char>, i: int)
    requires
        0 <= i <= a.len(),
    ensures
        before_from(a + s, a + t, i) == before_from(a + s, a + t, a.len() as int),
    decreases a.len() - i,
{
    if i < a.len() {
        assert((a + s)[i] == a[i] && (a + t)[i] == a[i]);
        alike_before(a, s, t, i + 1);
    }
}

/// Texts are ordered by the first character in which they differ, and a text comes
/// before every longer one that it begins.
pub proof fn texts_are_ordered_by_their_first_difference(
    a: Seq<char>,
    x: char,
    y: char,
    s: Seq<char>,
    t: Seq<char>,
)
    ensures
        text_before(a, a + seq![x] + s),
        !text_before(a + seq![x] + s, a),
        x != y ==> (text_before(a + seq![x] + s, a + seq![y] + t) <==> (x as nat) < (y as nat)),
{
    let n = a.len() as int;
    let e = Seq::<char>::empty();
    assert(a =~= a + e);
    assert(a + seq![x] + s =~= a + (seq![x] + s));
    assert(a + seq![y] + t =~= a + (seq![y] + t));
    alike_before(a, e, seq![x] + s, 0);
    alike_before(a, seq![x] + s, e, 0);
    alike_before(a, seq![x] + s, seq![y] + t, 0);
    assert((a + (seq![x] + s))[n] == x);
    assert((a + (seq![y] + t))[n] == y);
}

} // verus!
