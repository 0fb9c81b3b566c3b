//! Text operations with exact specifications over sequences of characters:
//! decimal and hexadecimal numerals, splitting, trimming and message assembly.
use vstd::prelude::*;

verus! {

/// `String::push` appends one character.
pub assume_specification[ String::push ](s: &mut String, c: char)
    ensures
        final(s)@ == old(s)@.push(c),
;

/// `String::push_str` appends a whole text.
pub assume_specification[ String::push_str ](s: &mut String, t: &str)
    ensures
        final(s)@ == old(s)@ + t@,
;

/// `==` on `str` compares the two texts.
pub assume_specification[ <str as PartialEq>::eq ](a: &str, b: &str) -> (r: bool)
    ensures
        r == (a@ == b@),
;

/// The text that `{:?}` renders for a string: quoted, with std's escapes.
pub uninterp spec fn quoted(s: Seq<char>) -> Seq<char>;

/// `str`'s `Debug` rendering. Its escape rules follow Unicode tables, so the
/// result is only named.
#[verifier::external_body]
pub(crate) fn quoted_text(s: &str) -> (r: String)
    ensures
        r@ == quoted(s@),
{
    format!("{s:?}")
}

/// The texts held by a sequence of strings.
pub open spec fn texts(v: Seq<String>) -> Seq<Seq<char>> {
    Seq::new(v.len(), |i: int| v[i]@)
}

/// The text of an optional string.
pub open spec fn opt_text(s: Option<String>) -> Option<Seq<char>> {
    match s {
        Some(t) => Some(t@),
        None => None,
    }
}

/// A result whose error message is taken as text.
pub open spec fn told<T>(r: Result<T, String>) -> Result<T, Seq<char>> {
    match r {
        Ok(v) => Ok(v),
        Err(e) => Err(e@),
    }
}

/// Whether two texts are equal.
pub fn same(a: &str, b: &str) -> (r: bool)
    ensures
        r == (a@ == b@),
{
    *a == *b
}

/// The characters of a text.
pub fn chars_of(s: &str) -> (r: Vec<char>)
    ensures
        r@ == s@,
{
    let mut out: Vec<char> = Vec::new();
    for c in it: s.chars()
        invariant
            out@ == it.seq().take(it.index() as int),
            it.seq() == s@,
    {
        out.push(c);
    }
    out
}

/// The text made of the characters at `from..to`.
pub fn text_between(v: &Vec<char>, from: usize, to: usize) -> (r: String)
    requires
        from <= to <= v@.len(),
    ensures
        r@ == v@.subrange(from as int, to as int),
{
    let mut out = String::new();
    let mut i: usize = from;
    while i < to
        invariant
            from <= i <= to <= v@.len(),
            out@ == v@.subrange(from as int, i as int),
        decreases to - i,
    {
        out.push(v[i]);
        i = i + 1;
        assert(out@ =~= v@.subrange(from as int, i as int));
    }
    out
}

pub fn cat2(a: &str, b: &str) -> (r: String)
    ensures
        r@ == a@ + b@,
{
    let mut out = a.to_owned();
    out.push_str(b);
    out
}

pub fn cat3(a: &str, b: &str, c: &str) -> (r: String)
    ensures
        r@ == a@ + b@ + c@,
{
    let mut out = a.to_owned();
    out.push_str(b);
    out.push_str(c);
    out
}

pub fn cat4(a: &str, b: &str, c: &str, d: &str) -> (r: String)
    ensures
        r@ == a@ + b@ + c@ + d@,
{
    let mut out = cat3(a, b, c);
    out.push_str(d);
    out
}

pub fn cat5(a: &str, b: &str, c: &str, d: &str, e: &str) -> (r: String)
    ensures
        r@ == a@ + b@ + c@ + d@ + e@,
{
    let mut out = cat4(a, b, c, d);
    out.push_str(e);
    out
}

pub fn cat6(a: &str, b: &str, c: &str, d: &str, e: &str, f: &str) -> (r: String)
    ensures
        r@ == a@ + b@ + c@ + d@ + e@ + f@,
{
    let mut out = cat5(a, b, c, d, e);
    out.push_str(f);
    out
}

// ---------------------------------------------------------------------------
// Numerals
// ---------------------------------------------------------------------------

/// The character of a decimal digit.
pub open spec fn digit_char(d: nat) -> char {
    (48 + d) as char
}

/// The shortest decimal numeral of a number.
pub open spec fn decimal(n: nat) -> Seq<char>
    decreases n,
{
    if n < 10 {
        seq![digit_char(n)]
    } else {
        decimal(n / 10).push(digit_char(n % 10))
    }
}

pub fn decimal_text(n: u64) -> (r: String)
    ensures
        r@ == decimal(n as nat),
    decreases n,
{
    if n < 10 {
        let mut out = String::new();
        out.push((48u8 + n as u8) as char);
        assert(out@ =~= seq![digit_char(n as nat)]);
        out
    } else {
        let mut out = decimal_text(n / 10);
        out.push((48u8 + (n % 10) as u8) as char);
        out
    }
}

pub open spec fn is_digit(c: char) -> bool {
    '0' <= c && c <= '9'
}

/// Why a text is not an unsigned numeral.
#[derive(Clone, Copy, Debug, PartialEq, Eq, Structural)]
pub enum NumeralFault {
    Empty,
    InvalidDigit,
    TooLarge,
}

/// The value of the digits from `i` on, after a prefix worth `acc`; the first
/// character that is no digit or that carries the value past `max` ends it.
pub open spec fn digits_value(s: Seq<char>, i: int, acc: nat, max: nat) -> Result<nat, NumeralFault>
    decreases s.len() - i,
{
    if i >= s.len() {
        Ok(acc)
    } else if !is_digit(s[i]) {
        Err(NumeralFault::InvalidDigit)
    } else if acc * 10 + (s[i] as nat - 48) > max {
        Err(NumeralFault::TooLarge)
    } else {
        digits_value(s, i + 1, (acc * 10 + (s[i] as nat - 48)) as nat, max)
    }
}

/// The number that an unsigned numeral denotes: an optional `+`, then digits.
pub open spec fn numeral(s: Seq<char>, max: nat) -> Result<nat, NumeralFault> {
    if s.len() == 0 {
        Err(NumeralFault::Empty)
    } else if s[0] == '+' {
        if s.len() == 1 {
            Err(NumeralFault::InvalidDigit)
        } else {
            digits_value(s, 1, 0, max)
        }
    } else {
        digits_value(s, 0, 0, max)
    }
}

/// The sentence that describes a numeral's fault.
pub open spec fn fault_text(f: NumeralFault) -> Seq<char> {
    match f {
        NumeralFault::Empty => "cannot parse integer from empty string"@,
        NumeralFault::InvalidDigit => "invalid digit found in string"@,
        NumeralFault::TooLarge => "number too large to fit in target type"@,
    }
}

impl NumeralFault {
    pub fn text(self) -> (r: &'static str)
        ensures
            r@ == fault_text(self),
    {
        match self {
            NumeralFault::Empty => "cannot parse integer from empty string",
            NumeralFault::InvalidDigit => "invalid digit found in string",
            NumeralFault::TooLarge => "number too large to fit in target type",
        }
    }
}

/// Reads an unsigned numeral of value at most `max`.
pub fn parse_numeral(s: &str, max: u64) -> (r: Result<u64, NumeralFault>)
    ensures
        match r {
            Ok(v) => v <= max && numeral(s@, max as nat) == Ok::<nat, NumeralFault>(v as nat),
            Err(f) => numeral(s@, max as nat) == Err::<nat, NumeralFault>(f),
        },
{
    let chars = chars_of(s);
    if chars.len() == 0 {
        return Err(NumeralFault::Empty);
    }
    let mut i: usize = 0;
    if chars[0] == '+' {
        if chars.len() == 1 {
            return Err(NumeralFault::InvalidDigit);
        }
        i = 1;
    }
    let mut acc: u64 = 0;
    while i < chars.len()
        invariant
            i <= chars@.len(),
            chars@ == s@,
            acc <= max,
            numeral(s@, max as nat) == digits_value(s@, i as int, acc as nat, max as nat),
        decreases chars@.len() - i,
    {
        let c: char = chars[i];
        if c < '0' || c > '9' {
            return Err(NumeralFault::InvalidDigit);
        }
        let d: u64 = c as u64 - 48;
        if d > max || acc > max / 10 || acc * 10 > max - d {
            proof {
                assert(acc * 10 + d > max);
            }
            return Err(NumeralFault::TooLarge);
        }
        acc = acc * 10 + d;
        i = i + 1;
    }
    Ok(acc)
}

/// A numeral denotes the number it was rendered from.
pub proof fn numeral_of_decimal(n: nat, max: nat)
    requires
        n <= max,
    ensures
        numeral(decimal(n), max) == Ok::<nat, NumeralFault>(n),
{
    decimal_digits(n);
    prefix_value(n, decimal(n), max);
    let s = decimal(n);
    assert(digits_value(s, s.len() as int, n, max) == Ok::<nat, NumeralFault>(n));
}

proof fn decimal_digits(n: nat)
    ensures
        decimal(n).len() >= 1,
        forall|i: int| 0 <= i < decimal(n).len() ==> is_digit(#[trigger] decimal(n)[i]),
    decreases n,
{
    if n >= 10 {
        decimal_digits(n / 10);
    }
}

proof fn prefix_value(n: nat, s: Seq<char>, max: nat)
    requires
        n <= max,
        decimal(n).is_prefix_of(s),
    ensures
        digits_value(s, 0, 0, max) == digits_value(s, decimal(n).len() as int, n, max),
    decreases n,
{
    let d = decimal(n);
    let k = d.len() - 1;
    if n < 10 {
        assert(s[0] == d[0]);
        assert(digits_value(s, 0, 0, max) == digits_value(s, 1, n, max));
    } else {
        let p = decimal(n / 10);
        decimal_digits(n / 10);
        assert(p =~= d.drop_last());
        assert(p.is_prefix_of(s)) by {
            assert forall|i: int| 0 <= i < p.len() implies p[i] == s[i] by {
                assert(p[i] == d[i]);
                assert(d[i] == s[i]);
            }
            assert(p =~= s.subrange(0, p.len() as int));
        }
        prefix_value(n / 10, s, max);
        assert(s[k] == d[k]);
        assert(d[k] == digit_char(n % 10));
        assert((n / 10) * 10 + n % 10 == n);
    }
}

// ---------------------------------------------------------------------------
// Searching and splitting
// ---------------------------------------------------------------------------

/// The first index at or after `from` that holds `c`, or the length.
pub open spec fn find_char(s: Seq<char>, c: char, from: int) -> int
    decreases s.len() - from,
{
    if from >= s.len() {
        s.len() as int
    } else if s[from] == c {
        from
    } else {
        find_char(s, c, from + 1)
    }
}

pub proof fn find_char_bounds(s: Seq<char>, c: char, from: int)
    requires
        0 <= from <= s.len(),
    ensures
        from <= find_char(s, c, from) <= s.len(),
        find_char(s, c, from) < s.len() ==> s[find_char(s, c, from)] == c,
        forall|i: int| from <= i < find_char(s, c, from) ==> s[i] != c,
    decreases s.len() - from,
{
    if from < s.len() && s[from] != c {
        find_char_bounds(s, c, from + 1);
    }
}

pub fn find_in(s: &Vec<char>, c: char, from: usize) -> (r: usize)
    requires
        from <= s@.len(),
    ensures
        r == find_char(s@, c, from as int),
        from <= r <= s@.len(),
        r < s@.len() ==> s@[r as int] == c,
{
    let mut i: usize = from;
    while i < s.len() && s[i] != c
        invariant
            from <= i <= s@.len(),
            find_char(s@, c, from as int) == find_char(s@, c, i as int),
        decreases s@.len() - i,
    {
        i = i + 1;
    }
    i
}

/// The pieces between the separators from `from` on.
pub open spec fn pieces(s: Seq<char>, c: char, from: int) -> Seq<Seq<char>>
    decreases s.len() - from,
{
    let k = find_char(s, c, from);
    if from < 0 || k >= s.len() || k < from {
        seq![s.subrange(from, s.len() as int)]
    } else {
        seq![s.subrange(from, k)] + pieces(s, c, k + 1)
    }
}

/// The pieces of a text between the separators, in order.
pub open spec fn split(s: Seq<char>, c: char) -> Seq<Seq<char>> {
    pieces(s, c, 0)
}

pub fn split_text(s: &str, c: char) -> (r: Vec<String>)
    ensures
        texts(r@) == split(s@, c),
        r@.len() > 0,
{
    let chars = chars_of(s);
    let mut out: Vec<String> = Vec::new();
    let mut from: usize = 0;
    let mut at: usize = find_in(&chars, c, 0);
    proof {
        assert(texts(out@) + pieces(s@, c, 0) =~= split(s@, c));
    }
    while at < chars.len()
        invariant
            chars@ == s@,
            from <= at <= chars@.len(),
            at == find_char(s@, c, from as int),
            texts(out@) + pieces(s@, c, from as int) == split(s@, c),
        decreases chars@.len() - from,
    {
        let ghost before = out@;
        let piece = text_between(&chars, from, at);
        out.push(piece);
        proof {
            assert(texts(out@) =~= texts(before).push(s@.subrange(from as int, at as int)));
            assert(texts(before) + (seq![s@.subrange(from as int, at as int)] + pieces(s@, c, at + 1))
                =~= texts(out@) + pieces(s@, c, at + 1));
        }
        from = at + 1;
        at = find_in(&chars, c, from);
    }
    let ghost before = out@;
    let piece = text_between(&chars, from, chars.len());
    out.push(piece);
    proof {
        assert(texts(out@) =~= texts(before) + seq![s@.subrange(from as int, s@.len() as int)]);
    }
    out
}

/// A line's text without the carriage return that may end it.
pub open spec fn chomped(s: Seq<char>) -> Seq<char> {
    if s.len() > 0 && s.last() == '\r' {
        s.drop_last()
    } else {
        s
    }
}

/// The lines from `from` on: a line feed ends a line, and a carriage return
/// before it belongs to the ending; nothing after the last ending is no line.
pub open spec fn lines_from(s: Seq<char>, from: int) -> Seq<Seq<char>>
    decreases s.len() - from,
{
    let k = find_char(s, '\n', from);
    if from < 0 || from >= s.len() {
        Seq::empty()
    } else if k >= s.len() || k < from {
        seq![s.subrange(from, s.len() as int)]
    } else {
        seq![chomped(s.subrange(from, k))] + lines_from(s, k + 1)
    }
}

/// The lines of a text.
pub open spec fn lines(s: Seq<char>) -> Seq<Seq<char>> {
    lines_from(s, 0)
}

pub fn lines_of(s: &str) -> (r: Vec<String>)
    ensures
        texts(r@) == lines(s@),
{
    let chars = chars_of(s);
    let mut out: Vec<String> = Vec::new();
    let mut from: usize = 0;
    proof {
        assert(texts(out@) + lines_from(s@, 0) =~= lines(s@));
    }
    while from < chars.len()
        invariant
            chars@ == s@,
            from <= chars@.len(),
            texts(out@) + lines_from(s@, from as int) == lines(s@),
        decreases chars@.len() - from,
    {
        let at: usize = find_in(&chars, '\n', from);
        let ghost before = out@;
        if at < chars.len() {
            let ghost body = s@.subrange(from as int, at as int);
            let end: usize = if at > from && chars[at - 1] == '\r' {
                at - 1
            } else {
                at
            };
            let line = text_between(&chars, from, end);
            proof {
                if at > from {
                    assert(body.last() == s@[at - 1]);
                }
                assert(line@ =~= chomped(body));
            }
            out.push(line);
            proof {
                assert(texts(out@) =~= texts(before).push(chomped(body)));
                assert(texts(before) + (seq![chomped(body)] + lines_from(s@, at + 1))
                    =~= texts(out@) + lines_from(s@, at + 1));
            }
            from = at + 1;
        } else {
            let line = text_between(&chars, from, at);
            out.push(line);
            proof {
                assert(texts(out@) =~= texts(before).push(s@.subrange(from as int, at as int)));
                assert(texts(before) + seq![s@.subrange(from as int, s@.len() as int)]
                    =~= texts(out@) + lines_from(s@, at as int));
            }
            from = at;
        }
    }
    proof {
        assert(texts(out@) + lines_from(s@, from as int) =~= texts(out@));
    }
    out
}

// ---------------------------------------------------------------------------
// White space and prefixes
// ---------------------------------------------------------------------------

/// Unicode's `White_Space` property.
pub open spec fn is_space(c: char) -> bool {
    let u = c as nat;
    ||| 0x9 <= u <= 0xd
    ||| u == 0x20
    ||| u == 0x85
    ||| u == 0xa0
    ||| u == 0x1680
    ||| 0x2000 <= u <= 0x200a
    ||| u == 0x2028
    ||| u == 0x2029
    ||| u == 0x202f
    ||| u == 0x205f
    ||| u == 0x3000
}

pub fn is_space_char(c: char) -> (r: bool)
    ensures
        r == is_space(c),
{
    let u: u32 = c as u32;
    (0x9 <= u && u <= 0xd) || u == 0x20 || u == 0x85 || u == 0xa0 || u == 0x1680 || (0x2000 <= u
        && u <= 0x200a) || u == 0x2028 || u == 0x2029 || u == 0x202f || u == 0x205f || u == 0x3000
}

/// The first index at or after `from` that holds no white space, or the length.
pub open spec fn skip_spaces(s: Seq<char>, from: int) -> int
    decreases s.len() - from,
{
    if from >= s.len() {
        s.len() as int
    } else if is_space(s[from]) {
        skip_spaces(s, from + 1)
    } else {
        from
    }
}

/// Where the text at `from..end` ends once trailing white space is dropped.
pub open spec fn drop_spaces(s: Seq<char>, from: int, end: int) -> int
    decreases end - from,
{
    if from < end && is_space(s[end - 1]) {
        drop_spaces(s, from, end - 1)
    } else {
        end
    }
}

/// The text without white space at either end.
pub open spec fn trimmed(s: Seq<char>) -> Seq<char> {
    let from = skip_spaces(s, 0);
    s.subrange(from, drop_spaces(s, from, s.len() as int))
}

pub fn trim_text(s: &str) -> (r: String)
    ensures
        r@ == trimmed(s@),
{
    let chars = chars_of(s);
    let mut from: usize = 0;
    while from < chars.len() && is_space_char(chars[from])
        invariant
            from <= chars@.len(),
            chars@ == s@,
            skip_spaces(s@, 0) == skip_spaces(s@, from as int),
        decreases chars@.len() - from,
    {
        from = from + 1;
    }
    let mut end: usize = chars.len();
    while end > from && is_space_char(chars[end - 1])
        invariant
            from <= end <= chars@.len(),
            chars@ == s@,
            drop_spaces(s@, from as int, s@.len() as int) == drop_spaces(s@, from as int, end as int),
        decreases end,
    {
        end = end - 1;
    }
    text_between(&chars, from, end)
}

/// The text after a prefix, where the text has it.
pub open spec fn after_prefix(s: Seq<char>, p: Seq<char>) -> Option<Seq<char>> {
    if p.is_prefix_of(s) {
        Some(s.subrange(p.len() as int, s.len() as int))
    } else {
        None
    }
}

pub fn strip_prefix_text(s: &str, p: &str) -> (r: Option<String>)
    ensures
        opt_text(r) == after_prefix(s@, p@),
{
    let chars = chars_of(s);
    let prefix = chars_of(p);
    if prefix.len() > chars.len() {
        return None;
    }
    let mut i: usize = 0;
    while i < prefix.len()
        invariant
            i <= prefix@.len() <= chars@.len(),
            chars@ == s@,
            prefix@ == p@,
            forall|j: int| 0 <= j < i ==> chars@[j] == prefix@[j],
        decreases prefix@.len() - i,
    {
        if chars[i] != prefix[i] {
            proof {
                if p@.is_prefix_of(s@) {
                    assert(s@.subrange(0, p@.len() as int)[i as int] == s@[i as int]);
                }
            }
            return None;
        }
        i = i + 1;
    }
    proof {
        assert(p@ =~= s@.subrange(0, p@.len() as int));
    }
    Some(text_between(&chars, i, chars.len()))
}

pub fn has_prefix(s: &str, p: &str) -> (r: bool)
    ensures
        r == p@.is_prefix_of(s@),
{
    strip_prefix_text(s, p).is_some()
}

/// Whether the text starts with a character.
pub open spec fn leads_with(s: Seq<char>, c: char) -> bool {
    s.len() > 0 && s[0] == c
}

pub fn starts_with_char(s: &str, c: char) -> (r: bool)
    ensures
        r == leads_with(s@, c),
{
    let chars = chars_of(s);
    chars.len() > 0 && chars[0] == c
}

// ---------------------------------------------------------------------------
// ASCII letters and hexadecimal
// ---------------------------------------------------------------------------

/// The lower-case form of an ASCII letter; any other character itself.
pub open spec fn lower_char(c: char) -> char {
    if 'A' <= c && c <= 'Z' {
        (c as nat + 32) as char
    } else {
        c
    }
}

pub open spec fn lowered(s: Seq<char>) -> Seq<char> {
    Seq::new(s.len(), |i: int| lower_char(s[i]))
}

pub fn lower_text(s: &str) -> (r: String)
    ensures
        r@ == lowered(s@),
{
    let chars = chars_of(s);
    let mut out = String::new();
    let mut i: usize = 0;
    while i < chars.len()
        invariant
            i <= chars@.len(),
            chars@ == s@,
            out@ == lowered(s@).take(i as int),
        decreases chars@.len() - i,
    {
        let c: char = chars[i];
        let l: char = if 'A' <= c && c <= 'Z' {
            (c as u8 + 32) as char
        } else {
            c
        };
        out.push(l);
        i = i + 1;
        assert(out@ =~= lowered(s@).take(i as int));
    }
    assert(out@ =~= lowered(s@));
    out
}

pub open spec fn is_hex_digit(c: char) -> bool {
    is_digit(c) || ('a' <= c && c <= 'f') || ('A' <= c && c <= 'F')
}

pub open spec fn is_lower_hex_digit(c: char) -> bool {
    is_digit(c) || ('a' <= c && c <= 'f')
}

/// The lower-case hexadecimal digit of a half byte.
pub open spec fn hex_char(n: nat) -> char {
    if n < 10 {
        (48 + n) as char
    } else {
        (87 + n) as char
    }
}

/// Two lower-case hexadecimal digits per byte, high half first.
pub open spec fn hex(bytes: Seq<u8>) -> Seq<char> {
    Seq::new(
        bytes.len() * 2,
        |i: int|
            if i % 2 == 0 {
                hex_char(bytes[i / 2] as nat / 16)
            } else {
                hex_char(bytes[i / 2] as nat % 16)
            },
    )
}

fn hex_digit(n: u8) -> (r: char)
    requires
        n < 16,
    ensures
        r == hex_char(n as nat),
{
    if n < 10 {
        (48 + n) as char
    } else {
        (87 + n) as char
    }
}

pub fn hex_text(bytes: &[u8]) -> (r: String)
    requires
        bytes@.len() * 2 <= usize::MAX,
    ensures
        r@ == hex(bytes@),
{
    let mut out = String::new();
    let mut i: usize = 0;
    while i < bytes.len()
        invariant
            i <= bytes@.len(),
            out@ == hex(bytes@).take(2 * i),
        decreases bytes@.len() - i,
    {
        let b: u8 = bytes[i];
        out.push(hex_digit(b / 16));
        out.push(hex_digit(b % 16));
        proof {
            let h = hex(bytes@);
            assert(h[2 * i] == hex_char(b as nat / 16));
            assert((2 * i + 1) / 2 == i);
            assert(h[2 * i + 1] == hex_char(b as nat % 16));
        }
        i = i + 1;
        assert(out@ =~= hex(bytes@).take(2 * i));
    }
    assert(out@ =~= hex(bytes@));
    out
}

/// A text of exactly 64 hexadecimal digits, in either case.
pub open spec fn is_digest(s: Seq<char>) -> bool {
    s.len() == 64 && forall|i: int| 0 <= i < s.len() ==> is_hex_digit(#[trigger] s[i])
}

/// A text of exactly 64 lower-case hexadecimal digits.
pub open spec fn is_lower_digest(s: Seq<char>) -> bool {
    s.len() == 64 && forall|i: int| 0 <= i < s.len() ==> is_lower_hex_digit(#[trigger] s[i])
}

pub fn digest_shaped(s: &str) -> (r: bool)
    ensures
        r == is_digest(s@),
{
    let chars = chars_of(s);
    if chars.len() != 64 {
        return false;
    }
    let mut i: usize = 0;
    while i < chars.len()
        invariant
            chars@ == s@,
            chars@.len() == 64,
            i <= chars@.len(),
            forall|j: int| 0 <= j < i ==> is_hex_digit(#[trigger] s@[j]),
        decreases chars@.len() - i,
    {
        let c: char = chars[i];
        if !(('0' <= c && c <= '9') || ('a' <= c && c <= 'f') || ('A' <= c && c <= 'F')) {
            assert(!is_hex_digit(s@[i as int]));
            return false;
        }
        i = i + 1;
    }
    true
}

pub fn lower_digest_shaped(s: &str) -> (r: bool)
    ensures
        r == is_lower_digest(s@),
{
    let chars = chars_of(s);
    if chars.len() != 64 {
        return false;
    }
    let mut i: usize = 0;
    while i < chars.len()
        invariant
            chars@ == s@,
            chars@.len() == 64,
            i <= chars@.len(),
            forall|j: int| 0 <= j < i ==> is_lower_hex_digit(#[trigger] s@[j]),
        decreases chars@.len() - i,
    {
        let c: char = chars[i];
        if !(('0' <= c && c <= '9') || ('a' <= c && c <= 'f')) {
            assert(!is_lower_hex_digit(s@[i as int]));
            return false;
        }
        i = i + 1;
    }
    true
}

/// Whether one of the strings holds the text.
pub open spec fn listed(v: Seq<String>, t: Seq<char>) -> bool {
    exists|i: int| 0 <= i < v.len() && (#[trigger] v[i])@ == t
}

pub fn lists(v: &Vec<String>, t: &str) -> (r: bool)
    ensures
        r == listed(v@, t@),
{
    let mut i: usize = 0;
    while i < v.len()
        invariant
            i <= v@.len(),
            forall|j: int| 0 <= j < i ==> (#[trigger] v@[j])@ != t@,
        decreases v@.len() - i,
    {
        if same(v[i].as_str(), t) {
            return true;
        }
        i = i + 1;
    }
    false
}

/// The numerals of the values, as `{:?}` writes a list of them.
pub open spec fn list_items(v: Seq<u32>) -> Seq<char>
    decreases v.len(),
{
    if v.len() == 0 {
        Seq::empty()
    } else if v.len() == 1 {
        decimal(v[0] as nat)
    } else {
        list_items(v.drop_last()) + ", "@ + decimal(v.last() as nat)
    }
}

pub open spec fn list_text(v: Seq<u32>) -> Seq<char> {
    "["@ + list_items(v) + "]"@
}

pub fn list_of(v: &Vec<u32>) -> (r: String)
    ensures
        r@ == list_text(v@),
{
    let mut out = "[".to_owned();
    let mut i: usize = 0;
    proof {
        assert(out@ =~= "["@ + list_items(v@.take(0)));
    }
    while i < v.len()
        invariant
            i <= v@.len(),
            out@ == "["@ + list_items(v@.take(i as int)),
        decreases v@.len() - i,
    {
        let ghost before = v@.take(i as int);
        let ghost after = v@.take(i + 1);
        proof {
            assert(after.drop_last() =~= before);
        }
        if i > 0 {
            out.push_str(", ");
        }
        let item = decimal_text(v[i] as u64);
        out.push_str(item.as_str());
        i = i + 1;
        proof {
            assert(out@ =~= "["@ + list_items(after));
        }
    }
    assert(v@.take(v@.len() as int) =~= v@);
    out.push_str("]");
    out
}

} // verus!
