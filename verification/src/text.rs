//! Character-level helpers for the protocol parsers and diagnostics.
//!
//! Text is handled as sequences of Unicode scalar values. The whitespace
//! class is Unicode's `White_Space` property, which is what Rust's
//! `char::is_whitespace` and `str::trim` use.
use vstd::prelude::*;

verus! {

/// Unicode `White_Space`.
pub open spec fn spec_is_whitespace(c: char) -> bool {
    let u = c as u32;
    ||| u == 0x20
    ||| 0x09 <= u <= 0x0d
    ||| u == 0x85
    ||| u == 0xa0
    ||| u == 0x1680
    ||| 0x2000 <= u <= 0x200a
    ||| u == 0x2028
    ||| u == 0x2029
    ||| u == 0x202f
    ||| u == 0x205f
    ||| u == 0x3000
}

/// Whether a character is Unicode `White_Space`.
pub fn is_whitespace(c: char) -> (ws: bool)
    ensures
        ws == spec_is_whitespace(c),
{
    let u = c as u32;
    u == 0x20 || (0x09 <= u && u <= 0x0d) || u == 0x85 || u == 0xa0 || u == 0x1680 || (0x2000 <= u
        && u <= 0x200a) || u == 0x2028 || u == 0x2029 || u == 0x202f || u == 0x205f || u == 0x3000
}

/// Whether every character is whitespace (so that trimming leaves nothing).
pub open spec fn spec_is_blank(s: Seq<char>) -> bool {
    forall|i: int| 0 <= i < s.len() ==> spec_is_whitespace(#[trigger] s[i])
}

/// The number of leading whitespace characters.
pub open spec fn leading_ws(s: Seq<char>) -> nat
    decreases s.len(),
{
    if s.len() > 0 && spec_is_whitespace(s[0]) {
        1 + leading_ws(s.skip(1))
    } else {
        0
    }
}

/// The number of trailing whitespace characters.
pub open spec fn trailing_ws(s: Seq<char>) -> nat
    decreases s.len(),
{
    if s.len() > 0 && spec_is_whitespace(s.last()) {
        1 + trailing_ws(s.drop_last())
    } else {
        0
    }
}

/// `s` without its leading whitespace, as `str::trim_start` gives it.
pub open spec fn spec_trim_start(s: Seq<char>) -> Seq<char> {
    s.skip(leading_ws(s) as int)
}

/// `s` without its trailing whitespace, as `str::trim_end` gives it.
pub open spec fn spec_trim_end(s: Seq<char>) -> Seq<char> {
    s.take(s.len() - trailing_ws(s))
}

/// `s` without leading and trailing whitespace, as `str::trim` gives it.
pub open spec fn spec_trim(s: Seq<char>) -> Seq<char> {
    spec_trim_end(spec_trim_start(s))
}

/// The characters of a string slice.
pub fn chars_of(s: &str) -> (chars: Vec<char>)
    ensures
        chars@ == s@,
{
    let mut chars: Vec<char> = Vec::new();
    for c in it: s.chars()
        invariant
            chars@ == it.seq().take(it.index() as int),
    {
        chars.push(c);
    }
    chars
}

/// Builds an owned string from characters, by `String::from_iter`, which
/// collects the characters in order.
#[verifier::external_body]
pub(crate) fn string_from_chars(chars: Vec<char>) -> (s: String)
    ensures
        s@ == chars@,
{
    String::from_iter(chars)
}

/// The trimmed range `[start, end)` of `s[from..to]`.
pub fn trim_range(s: &[char], from: usize, to: usize) -> (range: (usize, usize))
    requires
        from <= to <= s@.len(),
    ensures
        from <= range.0 <= range.1 <= to,
        s@.subrange(range.0 as int, range.1 as int) == spec_trim(s@.subrange(from as int, to as int)),
{
    let ghost whole = s@.subrange(from as int, to as int);
    let mut start = from;
    while start < to && is_whitespace(s[start])
        invariant
            from <= start <= to,
            to <= s@.len(),
            whole == s@.subrange(from as int, to as int),
            leading_ws(whole) == (start - from) + leading_ws(s@.subrange(start as int, to as int)),
        decreases to - start,
    {
        assert(s@.subrange(start as int, to as int)[0] == s@[start as int]);
        assert(s@.subrange(start as int, to as int).skip(1) =~= s@.subrange(start + 1, to as int));
        start = start + 1;
    }
    if start < to {
        assert(s@.subrange(start as int, to as int)[0] == s@[start as int]);
    }
    assert(spec_trim_start(whole) =~= s@.subrange(start as int, to as int));
    let ghost rest = s@.subrange(start as int, to as int);
    let mut end = to;
    while end > start && is_whitespace(s[end - 1])
        invariant
            start <= end <= to,
            to <= s@.len(),
            rest == s@.subrange(start as int, to as int),
            trailing_ws(rest) == (to - end) + trailing_ws(s@.subrange(start as int, end as int)),
        decreases end - start,
    {
        assert(s@.subrange(start as int, end as int).last() == s@[end - 1]);
        assert(s@.subrange(start as int, end as int).drop_last() =~= s@.subrange(
            start as int,
            end - 1,
        ));
        end = end - 1;
    }
    if end > start {
        assert(s@.subrange(start as int, end as int).last() == s@[end - 1]);
    }
    assert(spec_trim_end(rest) =~= s@.subrange(start as int, end as int));
    (start, end)
}

/// Whether every character of a string slice is whitespace.
pub fn is_blank(s: &str) -> (blank: bool)
    ensures
        blank == spec_is_blank(s@),
{
    let chars = chars_of(s);
    let mut i: usize = 0;
    while i < chars.len()
        invariant
            i <= chars@.len(),
            chars@ == s@,
            forall|j: int| 0 <= j < i ==> spec_is_whitespace(#[trigger] chars@[j]),
        decreases chars@.len() - i,
    {
        if !is_whitespace(chars[i]) {
            return false;
        }
        i = i + 1;
    }
    true
}

/// Whether two string slices hold the same characters.
pub fn str_eq(a: &str, b: &str) -> (eq: bool)
    ensures
        eq == (a@ == b@),
{
    let left = chars_of(a);
    let right = chars_of(b);
    chars_eq(left.as_slice(), right.as_slice())
}

/// Whether two character slices are equal.
pub fn chars_eq(a: &[char], b: &[char]) -> (eq: bool)
    ensures
        eq == (a@ == b@),
{
    if a.len() != b.len() {
        return false;
    }
    let mut i: usize = 0;
    while i < a.len()
        invariant
            i <= a@.len(),
            a@.len() == b@.len(),
            forall|j: int| 0 <= j < i ==> a@[j] == b@[j],
        decreases a@.len() - i,
    {
        if a[i] != b[i] {
            return false;
        }
        i = i + 1;
    }
    assert(a@ =~= b@);
    true
}

/// The decimal digits of a natural number, most significant first.
pub open spec fn spec_decimal(n: nat) -> Seq<char>
    decreases n,
{
    if n < 10 {
        seq![digit_char(n)]
    } else {
        spec_decimal(n / 10).push(digit_char(n % 10))
    }
}

/// The ASCII digit for `d < 10`.
pub open spec fn digit_char(d: nat) -> char {
    (('0' as u32) + d) as char
}

/// The decimal text of a number.
pub fn decimal_string(n: u128) -> (text: String)
    ensures
        text@ == spec_decimal(n as nat),
{
    let mut chars: Vec<char> = Vec::new();
    push_decimal(&mut chars, n);
    string_from_chars(chars)
}

/// Appends the decimal digits of `n` to `out`.
pub fn push_decimal(out: &mut Vec<char>, n: u128)
    ensures
        final(out)@ == old(out)@ + spec_decimal(n as nat),
{
    let mut digits: Vec<char> = Vec::new();
    let mut rest = n;
    let ghost mut suffix: Seq<char> = Seq::empty();
    assert(spec_decimal(n as nat) + suffix =~= spec_decimal(n as nat));
    // Digits are produced least significant first, then written in reverse.
    while rest >= 10
        invariant
            spec_decimal(n as nat) == spec_decimal(rest as nat) + suffix,
            suffix.len() == digits@.len(),
            forall|i: int| 0 <= i < digits@.len() ==> #[trigger] digits@[i] == suffix[suffix.len() - 1 - i],
        decreases rest,
    {
        let c = char_from_digit((rest % 10) as u32);
        digits.push(c);
        proof {
            assert(spec_decimal(rest as nat) == spec_decimal((rest / 10) as nat).push(c));
            assert(spec_decimal(rest as nat) + suffix =~= spec_decimal((rest / 10) as nat) + (seq![c]
                + suffix));
            suffix = seq![c] + suffix;
        }
        rest = rest / 10;
    }
    let c = char_from_digit(rest as u32);
    digits.push(c);
    proof {
        assert(spec_decimal(rest as nat) == seq![c]);
        suffix = seq![c] + suffix;
    }
    let mut i = digits.len();
    let ghost start = out@;
    while i > 0
        invariant
            i <= digits@.len(),
            suffix.len() == digits@.len(),
            forall|j: int| 0 <= j < digits@.len() ==> #[trigger] digits@[j] == suffix[suffix.len() - 1 - j],
            out@ == start + suffix.take(digits@.len() - i),
        decreases i,
    {
        i = i - 1;
        out.push(digits[i]);
        assert(suffix.take(digits@.len() - i) =~= suffix.take(digits@.len() - i - 1).push(
            suffix[digits@.len() - 1 - i],
        ));
    }
    assert(suffix.take(digits@.len() as int) =~= suffix);
}

fn char_from_digit(d: u32) -> (c: char)
    requires
        d < 10,
    ensures
        c == digit_char(d as nat),
{
    if d == 0 {
        '0'
    } else if d == 1 {
        '1'
    } else if d == 2 {
        '2'
    } else if d == 3 {
        '3'
    } else if d == 4 {
        '4'
    } else if d == 5 {
        '5'
    } else if d == 6 {
        '6'
    } else if d == 7 {
        '7'
    } else if d == 8 {
        '8'
    } else {
        '9'
    }
}

/// Appends the characters of a string slice to `out`.
pub fn push_str(out: &mut Vec<char>, s: &str)
    ensures
        final(out)@ == old(out)@ + s@,
{
    let chars = chars_of(s);
    let ghost start = out@;
    let mut i: usize = 0;
    while i < chars.len()
        invariant
            i <= chars@.len(),
            chars@ == s@,
            out@ == start + chars@.take(i as int),
        decreases chars@.len() - i,
    {
        out.push(chars[i]);
        i = i + 1;
        assert(chars@.take(i as int) =~= chars@.take(i - 1).push(chars@[i - 1]));
    }
    assert(chars@.take(i as int) =~= chars@);
}

/// The decimal form of an integer, with a leading minus sign when negative.
pub open spec fn spec_signed_decimal(n: int) -> Seq<char> {
    if n < 0 {
        seq!['-'] + spec_decimal((-n) as nat)
    } else {
        spec_decimal(n as nat)
    }
}

/// Appends the decimal form of a signed integer to `out`.
pub fn push_signed(out: &mut Vec<char>, n: i64)
    ensures
        final(out)@ == old(out)@ + spec_signed_decimal(n as int),
{
    if n < 0 {
        out.push('-');
        let magnitude: u128 = if n == i64::MIN {
            9_223_372_036_854_775_808
        } else {
            (-n) as u128
        };
        let ghost mid = out@;
        push_decimal(out, magnitude);
        assert(out@ =~= old(out)@ + spec_signed_decimal(n as int));
    } else {
        push_decimal(out, n as u128);
    }
}

/// The index of the first occurrence of `c` in `s`, or `s.len()`.
pub open spec fn first_index_of(s: Seq<char>, c: char) -> nat
    decreases s.len(),
{
    if s.len() == 0 {
        0
    } else if s[0] == c {
        0
    } else {
        1 + first_index_of(s.skip(1), c)
    }
}

/// The first occurrence of `c` is within `s`, and no earlier character is `c`.
pub proof fn lemma_first_index_of(s: Seq<char>, c: char)
    ensures
        first_index_of(s, c) <= s.len(),
        first_index_of(s, c) < s.len() ==> s[first_index_of(s, c) as int] == c,
        forall|i: int| 0 <= i < first_index_of(s, c) ==> s[i] != c,
    decreases s.len(),
{
    if s.len() > 0 && s[0] != c {
        lemma_first_index_of(s.skip(1), c);
        assert forall|i: int| 0 <= i < first_index_of(s, c) implies s[i] != c by {
            if i > 0 {
                assert(s[i] == s.skip(1)[i - 1]);
            }
        }
    }
}

/// Returns the index of the first occurrence of `c` at or after `start`, or
/// `s.len()`.
pub fn find_char(s: &[char], start: usize, c: char) -> (index: usize)
    requires
        start <= s@.len(),
    ensures
        index == start + first_index_of(s@.skip(start as int), c),
        start <= index <= s@.len(),
{
    let mut i = start;
    while i < s.len() && s[i] != c
        invariant
            start <= i <= s@.len(),
            first_index_of(s@.skip(start as int), c) == (i - start) + first_index_of(
                s@.skip(i as int),
                c,
            ),
        decreases s@.len() - i,
    {
        assert(s@.skip(i as int)[0] == s@[i as int]);
        assert(s@.skip(i as int).skip(1) =~= s@.skip(i + 1));
        i = i + 1;
    }
    if i < s.len() {
        assert(s@.skip(i as int)[0] == s@[i as int]);
    }
    i
}

/// The pieces of `s` between occurrences of `sep`, as `str::split` with a
/// character separator gives them: empty pieces included, and one piece for
/// an empty string.
pub open spec fn spec_split(s: Seq<char>, sep: char) -> Seq<Seq<char>>
    decreases s.len(),
{
    let k = first_index_of(s, sep);
    if k >= s.len() {
        seq![s]
    } else {
        seq![s.take(k as int)] + spec_split(s.skip(k + 1 as int), sep)
    }
}

/// Splits `s[from..to]` at every `sep`, as ranges into `s`.
pub fn split_ranges(s: &[char], from: usize, to: usize, sep: char) -> (pieces: Vec<(usize, usize)>)
    requires
        from <= to <= s@.len(),
    ensures
        pieces@.len() == spec_split(s@.subrange(from as int, to as int), sep).len(),
        forall|i: int|
            0 <= i < pieces@.len() ==> {
                let (a, b) = #[trigger] pieces@[i];
                &&& from <= a <= b <= to
                &&& s@.subrange(a as int, b as int) == spec_split(
                    s@.subrange(from as int, to as int),
                    sep,
                )[i]
            },
{
    let ghost whole = s@.subrange(from as int, to as int);
    let mut pieces: Vec<(usize, usize)> = Vec::new();
    let mut start = from;
    loop
        invariant_except_break
            spec_split(whole, sep) == pieces@.map_values(
                |p: (usize, usize)| s@.subrange(p.0 as int, p.1 as int),
            ) + spec_split(s@.subrange(start as int, to as int), sep),
        invariant
            from <= start <= to <= s@.len(),
            whole == s@.subrange(from as int, to as int),
            forall|i: int|
                0 <= i < pieces@.len() ==> {
                    let (a, b) = #[trigger] pieces@[i];
                    from <= a <= b <= to
                },
        ensures
            spec_split(whole, sep) == pieces@.map_values(
                |p: (usize, usize)| s@.subrange(p.0 as int, p.1 as int),
            ),
        decreases to - start,
    {
        let ghost rest = s@.subrange(start as int, to as int);
        let mut end = start;
        while end < to && s[end] != sep
            invariant
                start <= end <= to <= s@.len(),
                first_index_of(s@.subrange(start as int, to as int), sep) == (end - start)
                    + first_index_of(s@.subrange(end as int, to as int), sep),
            decreases to - end,
        {
            assert(s@.subrange(end as int, to as int)[0] == s@[end as int]);
            assert(s@.subrange(end as int, to as int).skip(1) =~= s@.subrange(end + 1, to as int));
            end = end + 1;
        }
        if end < to {
            assert(s@.subrange(end as int, to as int)[0] == s@[end as int]);
        }
        let ghost before = pieces@;
        pieces.push((start, end));
        if end >= to {
            proof {
                assert(spec_split(rest, sep) == seq![rest]);
                assert(pieces@.map_values(|p: (usize, usize)| s@.subrange(p.0 as int, p.1 as int))
                    =~= before.map_values(
                    |p: (usize, usize)| s@.subrange(p.0 as int, p.1 as int),
                ).push(rest));
                assert(spec_split(whole, sep) =~= pieces@.map_values(
                    |p: (usize, usize)| s@.subrange(p.0 as int, p.1 as int),
                ));
            }
            break;
        }
        proof {
            let k = (end - start) as int;
            assert(rest.take(k) =~= s@.subrange(start as int, end as int));
            assert(rest.skip(k + 1) =~= s@.subrange(end + 1, to as int));
            assert(spec_split(rest, sep) == seq![rest.take(k)] + spec_split(rest.skip(k + 1), sep));
            assert(pieces@.map_values(|p: (usize, usize)| s@.subrange(p.0 as int, p.1 as int))
                =~= before.map_values(
                |p: (usize, usize)| s@.subrange(p.0 as int, p.1 as int),
            ).push(s@.subrange(start as int, end as int)));
            assert(spec_split(whole, sep) =~= pieces@.map_values(
                |p: (usize, usize)| s@.subrange(p.0 as int, p.1 as int),
            ) + spec_split(s@.subrange(end + 1, to as int), sep));
        }
        start = end + 1;
    }
    proof {
        assert forall|i: int| 0 <= i < pieces@.len() implies {
            let (a, b) = #[trigger] pieces@[i];
            &&& from <= a <= b <= to
            &&& s@.subrange(a as int, b as int) == spec_split(whole, sep)[i]
        } by {
            assert(spec_split(whole, sep)[i] == pieces@.map_values(
                |p: (usize, usize)| s@.subrange(p.0 as int, p.1 as int),
            )[i]);
        }
    }
    pieces
}

/// A line without the carriage return that ended it.
pub open spec fn strip_cr(line: Seq<char>) -> Seq<char> {
    if line.len() > 0 && line.last() == '\r' {
        line.drop_last()
    } else {
        line
    }
}

/// The lines of `s`, as `str::lines` gives them: split at `\n`, a `\r`
/// before the `\n` removed, and no empty line after a final `\n`.
pub open spec fn spec_lines(s: Seq<char>) -> Seq<Seq<char>>
    decreases s.len(),
{
    if s.len() == 0 {
        seq![]
    } else {
        let k = first_index_of(s, '\n');
        if k >= s.len() {
            seq![s]
        } else {
            seq![strip_cr(s.take(k as int))] + spec_lines(s.skip(k + 1 as int))
        }
    }
}

/// Splits `s` into lines, as ranges into `s`.
pub fn line_ranges(s: &[char]) -> (lines: Vec<(usize, usize)>)
    ensures
        lines@.len() == spec_lines(s@).len(),
        forall|i: int|
            0 <= i < lines@.len() ==> {
                let (a, b) = #[trigger] lines@[i];
                &&& a <= b <= s@.len()
                &&& s@.subrange(a as int, b as int) == spec_lines(s@)[i]
            },
{
    let mut lines: Vec<(usize, usize)> = Vec::new();
    let mut start: usize = 0;
    assert(s@.subrange(0, s@.len() as int) =~= s@);
    while start < s.len()
        invariant
            start <= s@.len(),
            spec_lines(s@) == lines@.map_values(
                |p: (usize, usize)| s@.subrange(p.0 as int, p.1 as int),
            ) + spec_lines(s@.subrange(start as int, s@.len() as int)),
            forall|i: int|
                0 <= i < lines@.len() ==> {
                    let (a, b) = #[trigger] lines@[i];
                    a <= b <= s@.len()
                },
        decreases s@.len() - start,
    {
        let ghost rest = s@.subrange(start as int, s@.len() as int);
        let end = find_char(s, start, '\n');
        assert(s@.skip(start as int) =~= rest);
        let ghost before = lines@;
        if end >= s.len() {
            lines.push((start, end));
            proof {
                assert(spec_lines(rest) == seq![rest]);
                assert(lines@.map_values(|p: (usize, usize)| s@.subrange(p.0 as int, p.1 as int))
                    =~= before.map_values(
                    |p: (usize, usize)| s@.subrange(p.0 as int, p.1 as int),
                ).push(rest));
                assert(s@.subrange(s@.len() as int, s@.len() as int) =~= Seq::<char>::empty());
            }
            start = end;
        } else {
            let line_end = if end > start && s[end - 1] == '\r' {
                end - 1
            } else {
                end
            };
            lines.push((start, line_end));
            proof {
                let k = (end - start) as int;
                assert(rest.take(k) =~= s@.subrange(start as int, end as int));
                assert(strip_cr(rest.take(k)) =~= s@.subrange(start as int, line_end as int));
                assert(rest.skip(k + 1) =~= s@.subrange(end + 1, s@.len() as int));
                assert(lines@.map_values(|p: (usize, usize)| s@.subrange(p.0 as int, p.1 as int))
                    =~= before.map_values(
                    |p: (usize, usize)| s@.subrange(p.0 as int, p.1 as int),
                ).push(s@.subrange(start as int, line_end as int)));
            }
            start = end + 1;
        }
    }
    proof {
        assert(spec_lines(s@.subrange(start as int, s@.len() as int)) =~= Seq::<Seq<char>>::empty());
        let mapped = lines@.map_values(|p: (usize, usize)| s@.subrange(p.0 as int, p.1 as int));
        assert(spec_lines(s@) =~= mapped);
        assert forall|i: int| 0 <= i < lines@.len() implies {
            let (a, b) = #[trigger] lines@[i];
            &&& a <= b <= s@.len()
            &&& s@.subrange(a as int, b as int) == spec_lines(s@)[i]
        } by {
            assert(spec_lines(s@)[i] == mapped[i]);
        }
    }
    lines
}

/// Whether `prefix` begins `s`.
pub open spec fn spec_starts_with(s: Seq<char>, prefix: Seq<char>) -> bool {
    prefix.len() <= s.len() && s.take(prefix.len() as int) == prefix
}

/// Whether `s[from..to]` begins with `prefix`.
pub fn range_starts_with(s: &[char], from: usize, to: usize, prefix: &str) -> (starts: bool)
    requires
        from <= to <= s@.len(),
    ensures
        starts == spec_starts_with(s@.subrange(from as int, to as int), prefix@),
{
    let p = chars_of(prefix);
    if p.len() > to - from {
        return false;
    }
    let mut i: usize = 0;
    while i < p.len()
        invariant
            i <= p@.len() <= to - from,
            from <= to <= s@.len(),
            p@ == prefix@,
            forall|j: int| 0 <= j < i ==> s@[from + j] == p@[j],
        decreases p@.len() - i,
    {
        if s[from + i] != p[i] {
            assert(s@.subrange(from as int, to as int).take(p@.len() as int)[i as int] != p@[i as int]);
            return false;
        }
        i = i + 1;
    }
    assert(s@.subrange(from as int, to as int).take(p@.len() as int) =~= p@);
    true
}

/// Whether `s[from..to]` is exactly `text`.
pub fn range_eq(s: &[char], from: usize, to: usize, text: &str) -> (eq: bool)
    requires
        from <= to <= s@.len(),
    ensures
        eq == (s@.subrange(from as int, to as int) == text@),
{
    let t = chars_of(text);
    if t.len() != to - from {
        proof {
            if s@.subrange(from as int, to as int) == text@ {
                assert(false);
            }
        }
        return false;
    }
    let starts = range_starts_with(s, from, to, text);
    proof {
        assert(s@.subrange(from as int, to as int).take(t@.len() as int) =~= s@.subrange(
            from as int,
            to as int,
        ));
    }
    starts
}

/// Copies the characters `s[from..to]`.
pub fn range_chars(s: &[char], from: usize, to: usize) -> (out: Vec<char>)
    requires
        from <= to <= s@.len(),
    ensures
        out@ == s@.subrange(from as int, to as int),
{
    let mut out: Vec<char> = Vec::new();
    let mut i = from;
    while i < to
        invariant
            from <= i <= to <= s@.len(),
            out@ == s@.subrange(from as int, i as int),
        decreases to - i,
    {
        out.push(s[i]);
        i = i + 1;
        assert(out@ =~= s@.subrange(from as int, i as int));
    }
    out
}

/// Builds an owned string from `s[from..to]`.
pub fn range_string(s: &[char], from: usize, to: usize) -> (text: String)
    requires
        from <= to <= s@.len(),
    ensures
        text@ == s@.subrange(from as int, to as int),
{
    let mut out: Vec<char> = Vec::new();
    let mut i = from;
    while i < to
        invariant
            from <= i <= to <= s@.len(),
            out@ == s@.subrange(from as int, i as int),
        decreases to - i,
    {
        out.push(s[i]);
        i = i + 1;
        assert(out@ =~= s@.subrange(from as int, i as int));
    }
    string_from_chars(out)
}

/// Whether some character of `s` is `c`.
pub fn range_contains(s: &[char], from: usize, to: usize, c: char) -> (found: bool)
    requires
        from <= to <= s@.len(),
    ensures
        found == s@.subrange(from as int, to as int).contains(c),
{
    let mut i = from;
    while i < to
        invariant
            from <= i <= to <= s@.len(),
            forall|j: int| from <= j < i ==> s@[j] != c,
        decreases to - i,
    {
        if s[i] == c {
            assert(s@.subrange(from as int, to as int)[i - from] == c);
            return true;
        }
        i = i + 1;
    }
    proof {
        if s@.subrange(from as int, to as int).contains(c) {
            let j = choose|j: int| 0 <= j < to - from && s@.subrange(from as int, to as int)[j] == c;
            assert(s@[from + j] == c);
        }
    }
    false
}

/// Why a decimal integer could not be parsed, as `core::num::IntErrorKind`
/// names it.
#[derive(Clone, Copy, Debug, PartialEq, Eq, Structural)]
pub enum IntParseError {
    /// The text is empty.
    Empty,
    /// A character is not a decimal digit, or only a sign is present.
    InvalidDigit,
    /// The value is too large for the target type.
    PosOverflow,
    /// The value is too small for the target type.
    NegOverflow,
}

/// The message that Rust's integer parse error shows for each kind.
pub open spec fn spec_int_error_message(error: IntParseError) -> Seq<char> {
    match error {
        IntParseError::Empty => "cannot parse integer from empty string"@,
        IntParseError::InvalidDigit => "invalid digit found in string"@,
        IntParseError::PosOverflow => "number too large to fit in target type"@,
        IntParseError::NegOverflow => "number too small to fit in target type"@,
    }
}

/// Appends the message of an integer parse error to `out`.
pub fn push_int_error_message(out: &mut Vec<char>, error: IntParseError)
    ensures
        final(out)@ == old(out)@ + spec_int_error_message(error),
{
    match error {
        IntParseError::Empty => push_str(out, "cannot parse integer from empty string"),
        IntParseError::InvalidDigit => push_str(out, "invalid digit found in string"),
        IntParseError::PosOverflow => push_str(out, "number too large to fit in target type"),
        IntParseError::NegOverflow => push_str(out, "number too small to fit in target type"),
    }
}

/// Whether `c` is an ASCII decimal digit.
pub open spec fn is_digit(c: char) -> bool {
    48 <= c as u32 <= 57
}

/// The value of an ASCII decimal digit.
pub open spec fn digit_value(c: char) -> int {
    c as u32 - 48
}

/// Reads the digits of `s` left to right onto `acc` towards a positive
/// value, failing at the first non-digit or at the first digit that passes
/// `max`.
pub open spec fn accumulate_up(acc: int, s: Seq<char>, max: int) -> Result<int, IntParseError>
    decreases s.len(),
{
    if s.len() == 0 {
        Ok(acc)
    } else if !is_digit(s[0]) {
        Err(IntParseError::InvalidDigit)
    } else if acc * 10 + digit_value(s[0]) > max {
        Err(IntParseError::PosOverflow)
    } else {
        accumulate_up(acc * 10 + digit_value(s[0]), s.skip(1), max)
    }
}

/// Reads the digits of `s` left to right onto `acc` towards a negative
/// value, failing at the first non-digit or at the first digit that passes
/// `min`.
pub open spec fn accumulate_down(acc: int, s: Seq<char>, min: int) -> Result<int, IntParseError>
    decreases s.len(),
{
    if s.len() == 0 {
        Ok(acc)
    } else if !is_digit(s[0]) {
        Err(IntParseError::InvalidDigit)
    } else if acc * 10 - digit_value(s[0]) < min {
        Err(IntParseError::NegOverflow)
    } else {
        accumulate_down(acc * 10 - digit_value(s[0]), s.skip(1), min)
    }
}

/// `s` parsed as a decimal integer in `[min, max]` the way Rust's
/// `FromStr` for integers parses it: an optional `+` (or `-` when `min` is
/// negative), then digits.
pub open spec fn spec_parse_int(s: Seq<char>, min: int, max: int) -> Result<int, IntParseError> {
    if s.len() == 0 {
        Err(IntParseError::Empty)
    } else if s.len() == 1 && (s[0] == '+' || s[0] == '-') {
        Err(IntParseError::InvalidDigit)
    } else if s[0] == '+' {
        accumulate_up(0, s.skip(1), max)
    } else if s[0] == '-' && min < 0 {
        accumulate_down(0, s.skip(1), min)
    } else {
        accumulate_up(0, s, max)
    }
}

proof fn lemma_accumulate_up_bounds(acc: int, s: Seq<char>, max: int)
    requires
        0 <= acc <= max,
    ensures
        accumulate_up(acc, s, max) matches Ok(v) ==> 0 <= v <= max,
    decreases s.len(),
{
    if s.len() > 0 && is_digit(s[0]) && acc * 10 + digit_value(s[0]) <= max {
        assert(acc * 10 + digit_value(s[0]) >= 0) by (nonlinear_arith)
            requires
                acc >= 0,
                digit_value(s[0]) >= 0,
        ;
        lemma_accumulate_up_bounds(acc * 10 + digit_value(s[0]), s.skip(1), max);
    }
}

proof fn lemma_accumulate_down_bounds(acc: int, s: Seq<char>, min: int)
    requires
        min <= acc <= 0,
    ensures
        accumulate_down(acc, s, min) matches Ok(v) ==> min <= v <= 0,
    decreases s.len(),
{
    if s.len() > 0 && is_digit(s[0]) && acc * 10 - digit_value(s[0]) >= min {
        assert(acc * 10 - digit_value(s[0]) <= 0) by (nonlinear_arith)
            requires
                acc <= 0,
                digit_value(s[0]) >= 0,
        ;
        lemma_accumulate_down_bounds(acc * 10 - digit_value(s[0]), s.skip(1), min);
    }
}

/// A parsed integer lies in the bounds it was parsed for.
pub proof fn lemma_parse_int_bounds(s: Seq<char>, min: int, max: int)
    requires
        min <= 0 <= max,
    ensures
        spec_parse_int(s, min, max) matches Ok(v) ==> min <= v <= max,
{
    if s.len() > 0 {
        lemma_accumulate_up_bounds(0, s.skip(1), max);
        lemma_accumulate_up_bounds(0, s, max);
        lemma_accumulate_down_bounds(0, s.skip(1), min);
    }
}

proof fn lemma_accumulate_up_step(acc: int, s: Seq<char>, max: int)
    requires
        s.len() > 0,
        is_digit(s[0]),
        acc * 10 + digit_value(s[0]) <= max,
    ensures
        accumulate_up(acc, s, max) == accumulate_up(acc * 10 + digit_value(s[0]), s.skip(1), max),
{
}

/// Parses `s[from..to]` as an unsigned integer no greater than `max`, the
/// way `str::parse` does for an unsigned type whose largest value is `max`.
pub fn parse_unsigned(s: &[char], from: usize, to: usize, max: u64) -> (result: Result<u64, IntParseError>)
    requires
        from <= to <= s@.len(),
    ensures
        match spec_parse_int(s@.subrange(from as int, to as int), 0, max as int) {
            Ok(v) => result == Ok::<u64, IntParseError>(v as u64),
            Err(e) => result == Err::<u64, IntParseError>(e),
        },
{
    let ghost text = s@.subrange(from as int, to as int);
    proof {
        lemma_parse_int_bounds(text, 0, max as int);
    }
    if from == to {
        return Err(IntParseError::Empty);
    }
    if to - from == 1 && (s[from] == '+' || s[from] == '-') {
        return Err(IntParseError::InvalidDigit);
    }
    let mut i = from;
    if s[from] == '+' {
        i = from + 1;
        assert(text.skip(1) =~= s@.subrange(i as int, to as int));
    } else {
        assert(text =~= s@.subrange(i as int, to as int));
    }
    let mut acc: u64 = 0;
    while i < to
        invariant
            from <= i <= to <= s@.len(),
            spec_parse_int(text, 0, max as int) == accumulate_up(
                acc as int,
                s@.subrange(i as int, to as int),
                max as int,
            ),
            text == s@.subrange(from as int, to as int),
            text.len() > 0,
            !(text.len() == 1 && (text[0] == '+' || text[0] == '-')),
        decreases to - i,
    {
        let c = s[i];
        let ghost rest = s@.subrange(i as int, to as int);
        assert(rest[0] == c);
        let u = c as u32;
        if !(48 <= u && u <= 57) {
            return Err(IntParseError::InvalidDigit);
        }
        let d = (u - 48) as u64;
        assert(digit_value(c) == d);
        let next = match acc.checked_mul(10) {
            Some(v) => match v.checked_add(d) {
                Some(w) => w,
                None => {
                    return Err(IntParseError::PosOverflow);
                },
            },
            None => {
                return Err(IntParseError::PosOverflow);
            },
        };
        if next > max {
            return Err(IntParseError::PosOverflow);
        }
        proof {
            lemma_accumulate_up_step(acc as int, rest, max as int);
            assert(rest.skip(1) =~= s@.subrange(i + 1, to as int));
        }
        acc = next;
        i = i + 1;
    }
    Ok(acc)
}

/// Parses `s[from..to]` as a decimal integer in `[min, max]`, as Rust's
/// `FromStr` for integers does.
pub fn parse_int(s: &[char], from: usize, to: usize, min: i64, max: i64) -> (result: Result<
    i64,
    IntParseError,
>)
    requires
        from <= to <= s@.len(),
        -0x8000_0000_0000 <= min <= 0 <= max <= 0x8000_0000_0000,
    ensures
        match spec_parse_int(s@.subrange(from as int, to as int), min as int, max as int) {
            Ok(v) => result == Ok::<i64, IntParseError>(v as i64),
            Err(e) => result == Err::<i64, IntParseError>(e),
        },
        result matches Ok(v) ==> min <= v <= max,
{
    proof {
        lemma_parse_int_bounds(s@.subrange(from as int, to as int), min as int, max as int);
    }
    let ghost text = s@.subrange(from as int, to as int);
    if from == to {
        return Err(IntParseError::Empty);
    }
    let first = s[from];
    assert(text[0] == first);
    if to - from == 1 && (first == '+' || first == '-') {
        return Err(IntParseError::InvalidDigit);
    }
    let negative = first == '-' && min < 0;
    let mut i = if first == '+' || negative {
        from + 1
    } else {
        from
    };
    assert(s@.subrange(i as int, to as int) =~= if first == '+' || negative {
        text.skip(1)
    } else {
        text
    });
    let mut acc: i64 = 0;
    while i < to
        invariant
            from <= i <= to <= s@.len(),
            text == s@.subrange(from as int, to as int),
            -0x8000_0000_0000 <= min <= 0 <= max <= 0x8000_0000_0000,
            negative ==> min <= acc <= 0,
            !negative ==> 0 <= acc <= max,
            spec_parse_int(text, min as int, max as int) == if negative {
                accumulate_down(acc as int, s@.subrange(i as int, to as int), min as int)
            } else {
                accumulate_up(acc as int, s@.subrange(i as int, to as int), max as int)
            },
        decreases to - i,
    {
        let c = s[i];
        let ghost rest = s@.subrange(i as int, to as int);
        assert(rest[0] == c);
        assert(rest.skip(1) =~= s@.subrange(i + 1, to as int));
        let code = c as u32;
        if !(48 <= code && code <= 57) {
            return Err(IntParseError::InvalidDigit);
        }
        let d = (code - 48) as i64;
        assert(d == digit_value(c));
        if negative {
            let next = acc * 10 - d;
            if next < min {
                return Err(IntParseError::NegOverflow);
            }
            acc = next;
        } else {
            let next = acc * 10 + d;
            if next > max {
                return Err(IntParseError::PosOverflow);
            }
            acc = next;
        }
        i = i + 1;
    }
    Ok(acc)
}

/// Whether `a` sorts strictly before `b`, comparing characters by code
/// point, as `str`'s `Ord` does.
pub open spec fn lex_lt(a: Seq<char>, b: Seq<char>) -> bool
    decreases a.len(),
{
    if a.len() == 0 {
        b.len() > 0
    } else if b.len() == 0 {
        false
    } else if a[0] != b[0] {
        (a[0] as u32) < (b[0] as u32)
    } else {
        lex_lt(a.skip(1), b.skip(1))
    }
}

/// The order of `lex_lt` is strict and total.
pub proof fn lemma_lex_order(a: Seq<char>, b: Seq<char>)
    ensures
        !(lex_lt(a, b) && lex_lt(b, a)),
        !lex_lt(a, a),
        a != b ==> lex_lt(a, b) || lex_lt(b, a),
    decreases a.len(),
{
    if a.len() > 0 && b.len() > 0 {
        lemma_lex_order(a.skip(1), b.skip(1));
        lemma_lex_order(a.skip(1), a.skip(1));
        if a[0] != b[0] {
            vstd::utf8::char_u32_cast(a[0], a[0] as u32);
            vstd::utf8::char_u32_cast(b[0], b[0] as u32);
            assert((a[0] as u32) != (b[0] as u32));
        }
        if a[0] == b[0] && a != b {
            assert(a.skip(1) != b.skip(1)) by {
                if a.skip(1) == b.skip(1) {
                    assert(a =~= b) by {
                        assert forall|i: int| 0 <= i < a.len() implies a[i] == b[i] by {
                            if i > 0 {
                                assert(a[i] == a.skip(1)[i - 1]);
                                assert(b[i] == b.skip(1)[i - 1]);
                            }
                        }
                    }
                }
            }
        }
    } else if a.len() > 0 {
        lemma_lex_order(a.skip(1), a.skip(1));
    } else if b.len() == 0 {
        assert(a =~= b);
    }
}

/// `lex_lt` is transitive.
pub proof fn lemma_lex_transitive(a: Seq<char>, b: Seq<char>, c: Seq<char>)
    requires
        lex_lt(a, b),
        lex_lt(b, c),
    ensures
        lex_lt(a, c),
    decreases a.len(),
{
    if a.len() > 0 && b.len() > 0 && c.len() > 0 && a[0] == b[0] && b[0] == c[0] {
        lemma_lex_transitive(a.skip(1), b.skip(1), c.skip(1));
    }
}

/// Whether `a` sorts strictly before `b`.
pub fn chars_lt(a: &[char], b: &[char]) -> (lt: bool)
    ensures
        lt == lex_lt(a@, b@),
{
    let mut i: usize = 0;
    assert(a@.skip(0) =~= a@);
    assert(b@.skip(0) =~= b@);
    while i < a.len() && i < b.len() && a[i] == b[i]
        invariant
            i <= a@.len(),
            i <= b@.len(),
            lex_lt(a@, b@) == lex_lt(a@.skip(i as int), b@.skip(i as int)),
        decreases a@.len() - i,
    {
        assert(a@.skip(i as int)[0] == a@[i as int]);
        assert(b@.skip(i as int)[0] == b@[i as int]);
        assert(a@.skip(i as int).skip(1) =~= a@.skip(i + 1));
        assert(b@.skip(i as int).skip(1) =~= b@.skip(i + 1));
        i = i + 1;
    }
    if i < a.len() && i < b.len() {
        assert(a@.skip(i as int)[0] == a@[i as int]);
        assert(b@.skip(i as int)[0] == b@[i as int]);
        (a[i] as u32) < (b[i] as u32)
    } else {
        i >= a.len() && i < b.len()
    }
}

} // verus!
