//! The PipeWire audio provider's configuration and its reading of the
//! `pw-dump` graph.
//!
//! Discovery runs `pw-dump` and reads its JSON document with a small,
//! bounded scanner: the top-level objects, and in each object the first
//! occurrence of a few string and number fields. Audio sources and sinks
//! become devices with stable `pipewire-node-<id>` ids, sorted by id, each
//! id once, with a default route for each kind that is present.
use vstd::prelude::*;

use crate::device::{AudioDeviceError, AudioDeviceInfo, AudioDeviceKind};
use crate::text::{
    chars_lt, chars_of, decimal_string, str_eq, lemma_lex_order, lemma_lex_transitive, lex_lt, first_index_of, is_digit, leading_ws, parse_int, push_decimal, push_str, spec_decimal,
    spec_parse_int, spec_trim_start, string_from_chars,
};
use crate::types::AudioFormat;

verus! {

/// Stable identifier for the PipeWire default input route.
pub const DEFAULT_INPUT_ID: &'static str = "pipewire-default";

/// Stable identifier for the PipeWire default output route.
pub const DEFAULT_OUTPUT_ID: &'static str = "pipewire-default-output";

/// The prefix of a PipeWire node's stable device id.
pub const NODE_ID_PREFIX: &'static str = "pipewire-node-";

/// The commands that the PipeWire provider runs.
#[derive(Debug)]
pub struct PipeWireAudioProvider {
    dump_command: String,
    cat_command: String,
}

impl PipeWireAudioProvider {
    /// The `pw-dump` executable.
    pub closed spec fn spec_dump_command(&self) -> Seq<char> {
        self.dump_command@
    }

    /// The `pw-cat` executable.
    pub closed spec fn spec_cat_command(&self) -> Seq<char> {
        self.cat_command@
    }

    /// Creates a provider that runs `pw-dump` and `pw-cat` from `PATH`.
    pub fn new() -> (provider: Self)
        ensures
            provider.spec_dump_command() == "pw-dump"@,
            provider.spec_cat_command() == "pw-cat"@,
    {
        PipeWireAudioProvider { dump_command: "pw-dump".to_owned(), cat_command: "pw-cat".to_owned() }
    }

    /// Creates a provider with explicit command paths.
    pub fn with_commands(dump_command: &str, cat_command: &str) -> (provider: Self)
        ensures
            provider.spec_dump_command() == dump_command@,
            provider.spec_cat_command() == cat_command@,
    {
        PipeWireAudioProvider { dump_command: dump_command.to_owned(), cat_command: cat_command.to_owned() }
    }

    /// Returns the configured `pw-dump` executable path.
    pub fn dump_command(&self) -> (command: &str)
        ensures
            command@ == self.spec_dump_command(),
    {
        self.dump_command.as_str()
    }

    /// Returns the configured `pw-cat` executable path.
    pub fn cat_command(&self) -> (command: &str)
        ensures
            command@ == self.spec_cat_command(),
    {
        self.cat_command.as_str()
    }
}

impl Default for PipeWireAudioProvider {
    fn default() -> (provider: Self)
        ensures
            provider.spec_dump_command() == "pw-dump"@,
            provider.spec_cat_command() == "pw-cat"@,
    {
        PipeWireAudioProvider::new()
    }
}

/// Whether every character of `s` is an ASCII digit.
pub open spec fn all_digits(s: Seq<char>) -> bool {
    forall|i: int| 0 <= i < s.len() ==> is_digit(#[trigger] s[i])
}

/// The PipeWire node that a stable device id targets: the digits after the
/// node prefix, when there are any and nothing else.
pub open spec fn spec_node_target(device_id: Seq<char>) -> Option<Seq<char>> {
    let prefix = NODE_ID_PREFIX@;
    if device_id.len() >= prefix.len() && device_id.take(prefix.len() as int) == prefix {
        let target = device_id.skip(prefix.len() as int);
        if target.len() > 0 && all_digits(target) {
            Some(target)
        } else {
            None
        }
    } else {
        None
    }
}

/// Returns the PipeWire node that a stable device id targets.
pub fn node_target(device_id: &str) -> (target: Option<&str>)
    ensures
        match spec_node_target(device_id@) {
            Some(t) => target matches Some(found) && found@ == t,
            None => target is None,
        },
{
    let chars = chars_of(device_id);
    let prefix = chars_of(NODE_ID_PREFIX);
    if chars.len() < prefix.len() {
        return None;
    }
    let mut i: usize = 0;
    while i < prefix.len()
        invariant
            i <= prefix@.len() <= chars@.len(),
            chars@ == device_id@,
            prefix@ == NODE_ID_PREFIX@,
            forall|j: int| 0 <= j < i ==> chars@[j] == prefix@[j],
        decreases prefix@.len() - i,
    {
        if chars[i] != prefix[i] {
            assert(chars@.take(prefix@.len() as int)[i as int] != prefix@[i as int]);
            return None;
        }
        i = i + 1;
    }
    assert(chars@.take(prefix@.len() as int) =~= prefix@);
    if chars.len() == prefix.len() {
        return None;
    }
    let mut j = prefix.len();
    while j < chars.len()
        invariant
            prefix@.len() <= j <= chars@.len(),
            chars@ == device_id@,
            prefix@ == NODE_ID_PREFIX@,
            forall|m: int| prefix@.len() <= m < j ==> is_digit(#[trigger] chars@[m]),
        decreases chars@.len() - j,
    {
        let code = chars[j] as u32;
        if !(48 <= code && code <= 57) {
            assert(!is_digit(chars@.skip(prefix@.len() as int)[j - prefix@.len()]));
            return None;
        }
        j = j + 1;
    }
    proof {
        let target = chars@.skip(prefix@.len() as int);
        assert forall|m: int| 0 <= m < target.len() implies is_digit(#[trigger] target[m]) by {
            assert(target[m] == chars@[m + prefix@.len()]);
        }
    }
    let target = device_id.substring_char(prefix.len(), chars.len());
    assert(target@ =~= device_id@.skip(prefix@.len() as int));
    Some(target)
}

/// What the object scanner knows after a prefix of the document.
pub struct ScanState {
    pub depth: u32,
    pub start: Option<int>,
    pub in_string: bool,
    pub escaped: bool,
    pub objects: Seq<(int, int)>,
}

/// The scanner's state after reading character `c` at index `i`: string
/// contents (with their escapes) are skipped, braces outside strings nest,
/// and a brace that closes the outermost object records that object's
/// range `[start, i + 1)`.
pub open spec fn scan_step(state: ScanState, i: int, c: char) -> ScanState {
    if state.in_string {
        if state.escaped {
            ScanState { escaped: false, ..state }
        } else if c == '\\' {
            ScanState { escaped: true, ..state }
        } else if c == '"' {
            ScanState { in_string: false, ..state }
        } else {
            state
        }
    } else if c == '"' {
        ScanState { in_string: true, ..state }
    } else if c == '{' {
        ScanState {
            start: if state.depth == 0 {
                Some(i)
            } else {
                state.start
            },
            depth: if state.depth == u32::MAX {
                u32::MAX
            } else {
                (state.depth + 1) as u32
            },
            ..state
        }
    } else if c == '}' {
        let depth: u32 = if state.depth == 0 {
            0
        } else {
            (state.depth - 1) as u32
        };
        if depth == 0 && state.start is Some {
            ScanState {
                depth,
                start: None,
                objects: state.objects.push((state.start->0, i + 1)),
                ..state
            }
        } else {
            ScanState { depth, ..state }
        }
    } else {
        state
    }
}

/// The scanner's state after the first `n` characters of `s`.
pub open spec fn scan(s: Seq<char>, n: int) -> ScanState
    decreases n,
{
    if n <= 0 {
        ScanState { depth: 0, start: None, in_string: false, escaped: false, objects: seq![] }
    } else {
        scan_step(scan(s, n - 1), n - 1, s[n - 1])
    }
}

/// The ranges of the top-level objects of a JSON document.
pub open spec fn spec_top_level_objects(s: Seq<char>) -> Seq<(int, int)> {
    scan(s, s.len() as int).objects
}

/// Finds the top-level objects of a JSON document, as character ranges.
pub fn top_level_objects(s: &[char]) -> (objects: Vec<(usize, usize)>)
    ensures
        objects@.len() == spec_top_level_objects(s@).len(),
        forall|k: int|
            0 <= k < objects@.len() ==> {
                let (a, b) = #[trigger] objects@[k];
                &&& (a as int, b as int) == spec_top_level_objects(s@)[k]
                &&& a < b <= s@.len()
            },
{
    let mut objects: Vec<(usize, usize)> = Vec::new();
    let mut depth: u32 = 0;
    let mut start: Option<usize> = None;
    let mut in_string = false;
    let mut escaped = false;
    let mut i: usize = 0;
    while i < s.len()
        invariant
            i <= s@.len(),
            ({
                let st = scan(s@, i as int);
                &&& st.depth == depth
                &&& st.start == match start {
                    Some(v) => Some(v as int),
                    None => None,
                }
                &&& st.in_string == in_string
                &&& st.escaped == escaped
                &&& st.objects.len() == objects@.len()
                &&& forall|k: int|
                    0 <= k < objects@.len() ==> (#[trigger] objects@[k]).0 as int == st.objects[k].0
                        && objects@[k].1 as int == st.objects[k].1
            }),
            start matches Some(v) ==> v < i,
            forall|k: int|
                0 <= k < objects@.len() ==> (#[trigger] objects@[k]).0 < objects@[k].1 <= i,
        decreases s@.len() - i,
    {
        let c = s[i];
        let ghost before = objects@;
        if in_string {
            if escaped {
                escaped = false;
            } else if c == '\\' {
                escaped = true;
            } else if c == '"' {
                in_string = false;
            }
        } else if c == '"' {
            in_string = true;
        } else if c == '{' {
            if depth == 0 {
                start = Some(i);
            }
            depth = if depth == u32::MAX {
                u32::MAX
            } else {
                depth + 1
            };
        } else if c == '}' {
            depth = if depth == 0 {
                0
            } else {
                depth - 1
            };
            if depth == 0 {
                match start {
                    Some(st) => {
                        objects.push((st, i + 1));
                        start = None;
                    },
                    None => {},
                }
            }
        }
        i = i + 1;
        proof {
            assert(scan(s@, i as int) == scan_step(scan(s@, i - 1), i - 1, s@[i - 1]));
        }
    }
    objects
}

/// The position of the first occurrence of `needle` in `s` at or after
/// `from`, or `s.len()` when there is none.
pub open spec fn first_occurrence(s: Seq<char>, needle: Seq<char>, from: int) -> int
    decreases s.len() - from,
{
    if from + needle.len() > s.len() || from < 0 {
        s.len() as int
    } else if s.subrange(from, from + needle.len()) == needle {
        from
    } else if from >= s.len() {
        s.len() as int
    } else {
        first_occurrence(s, needle, from + 1)
    }
}

/// Finds the first occurrence of `needle` in `s[from..to]`, as an index
/// into `s`, or `to` when there is none.
pub fn find_text(s: &[char], from: usize, to: usize, needle: &Vec<char>) -> (index: usize)
    requires
        from <= to <= s@.len(),
    ensures
        index == from + first_occurrence(s@.subrange(from as int, to as int), needle@, 0),
{
    let ghost hay = s@.subrange(from as int, to as int);
    let mut i = from;
    while needle.len() <= to - i
        invariant
            from <= i <= to <= s@.len(),
            hay == s@.subrange(from as int, to as int),
            first_occurrence(hay, needle@, 0) == first_occurrence(hay, needle@, i - from),
        decreases to - i,
    {
        let mut k: usize = 0;
        let mut matched = true;
        while k < needle.len()
            invariant
                k <= needle@.len(),
                i + needle@.len() <= to <= s@.len(),
                matched <==> forall|m: int| 0 <= m < k ==> s@[i + m] == needle@[m],
            decreases needle@.len() - k,
        {
            if s[i + k] != needle[k] {
                matched = false;
            }
            k = k + 1;
        }
        proof {
            let window = hay.subrange(i - from, i - from + needle@.len());
            if matched {
                assert(window =~= needle@);
            } else {
                let m = choose|m: int| 0 <= m < needle@.len() && s@[i + m] != needle@[m];
                assert(window[m] == s@[i + m]);
            }
        }
        if matched {
            return i;
        }
        i = i + 1;
    }
    to
}

/// Reads a JSON string literal at the start of `value`: `None` unless it
/// opens with a quote and closes before the end, with only the escapes
/// `\" \\ \/ \b \f \n \r \t` and no control characters.
pub open spec fn spec_decode_string(value: Seq<char>) -> Option<Seq<char>> {
    if value.len() == 0 || value[0] != '"' {
        None
    } else {
        decode_body(value.skip(1), seq![])
    }
}

/// Whether a character is a Unicode control character (general category
/// `Cc`).
pub open spec fn is_control(c: char) -> bool {
    c as u32 <= 0x1f || (0x7f <= c as u32 <= 0x9f)
}

/// The character that an escape letter stands for.
pub open spec fn unescape(c: char) -> Option<char> {
    if c == '"' {
        Some('"')
    } else if c == '\\' {
        Some('\\')
    } else if c == '/' {
        Some('/')
    } else if c == 'b' {
        Some('\u{8}')
    } else if c == 'f' {
        Some('\u{c}')
    } else if c == 'n' {
        Some('\n')
    } else if c == 'r' {
        Some('\r')
    } else if c == 't' {
        Some('\t')
    } else {
        None
    }
}

/// Reads the rest of a string literal onto `decoded`.
pub open spec fn decode_body(rest: Seq<char>, decoded: Seq<char>) -> Option<Seq<char>>
    decreases rest.len(),
{
    if rest.len() == 0 {
        None
    } else if rest[0] == '"' {
        Some(decoded)
    } else if rest[0] == '\\' {
        if rest.len() < 2 {
            None
        } else {
            match unescape(rest[1]) {
                Some(c) => decode_body(rest.skip(2), decoded.push(c)),
                None => None,
            }
        }
    } else if is_control(rest[0]) {
        None
    } else {
        decode_body(rest.skip(1), decoded.push(rest[0]))
    }
}

fn unescape_char(c: char) -> (r: Option<char>)
    ensures
        r == unescape(c),
{
    if c == '"' {
        Some('"')
    } else if c == '\\' {
        Some('\\')
    } else if c == '/' {
        Some('/')
    } else if c == 'b' {
        Some('\u{8}')
    } else if c == 'f' {
        Some('\u{c}')
    } else if c == 'n' {
        Some('\n')
    } else if c == 'r' {
        Some('\r')
    } else if c == 't' {
        Some('\t')
    } else {
        None
    }
}

/// Decodes the JSON string literal that starts at `s[from]`, reading no
/// further than `to`.
pub fn decode_json_string(s: &[char], from: usize, to: usize) -> (decoded: Option<String>)
    requires
        from <= to <= s@.len(),
    ensures
        match spec_decode_string(s@.subrange(from as int, to as int)) {
            Some(d) => decoded matches Some(text) && text@ == d,
            None => decoded is None,
        },
{
    let ghost value = s@.subrange(from as int, to as int);
    if from >= to || s[from] != '"' {
        return None;
    }
    assert(value[0] == s@[from as int]);
    let mut out: Vec<char> = Vec::new();
    let mut i = from + 1;
    assert(value.skip(1) =~= s@.subrange(i as int, to as int));
    while i < to
        invariant
            from < i <= to <= s@.len(),
            value == s@.subrange(from as int, to as int),
            spec_decode_string(value) == decode_body(s@.subrange(i as int, to as int), out@),
        decreases to - i,
    {
        let ghost rest = s@.subrange(i as int, to as int);
        let c = s[i];
        assert(rest[0] == c);
        if c == '"' {
            return Some(string_from_chars(out));
        }
        if c == '\\' {
            if i + 1 >= to {
                return None;
            }
            assert(rest[1] == s@[i + 1]);
            match unescape_char(s[i + 1]) {
                Some(e) => {
                    out.push(e);
                    assert(rest.skip(2) =~= s@.subrange(i + 2, to as int));
                    i = i + 2;
                },
                None => {
                    return None;
                },
            }
        } else {
            let code = c as u32;
            if code <= 0x1f || (0x7f <= code && code <= 0x9f) {
                return None;
            }
            out.push(c);
            assert(rest.skip(1) =~= s@.subrange(i + 1, to as int));
            i = i + 1;
        }
    }
    None
}

/// The text after the first `:` that follows the first occurrence of
/// `"key"` in `object`, without its leading whitespace; `None` when either
/// is missing.
pub open spec fn field_value(object: Seq<char>, key: Seq<char>) -> Option<Seq<char>> {
    let needle = seq!['"'] + key + seq!['"'];
    let position = first_occurrence(object, needle, 0);
    if position >= object.len() {
        None
    } else {
        let after = object.skip(position + needle.len());
        let colon = first_index_of(after, ':');
        if colon >= after.len() {
            None
        } else {
            Some(spec_trim_start(after.skip(colon + 1 as int)))
        }
    }
}

/// The string field `key` of a JSON object, read at its first occurrence.
pub open spec fn spec_string_field(object: Seq<char>, key: Seq<char>) -> Option<Seq<char>> {
    match field_value(object, key) {
        Some(value) => spec_decode_string(value),
        None => None,
    }
}

/// The leading ASCII digits of `s`.
pub open spec fn leading_digits(s: Seq<char>) -> Seq<char> {
    s.take(digit_run(s) as int)
}

/// The number of leading ASCII digits of `s`.
pub open spec fn digit_run(s: Seq<char>) -> nat
    decreases s.len(),
{
    if s.len() > 0 && is_digit(s[0]) {
        1 + digit_run(s.skip(1))
    } else {
        0
    }
}

/// The unsigned field `key` of a JSON object: its leading digits read as a
/// `u32`, when there are any and they fit.
pub open spec fn spec_u32_field(object: Seq<char>, key: Seq<char>) -> Option<u32> {
    match field_value(object, key) {
        Some(value) => match spec_parse_int(leading_digits(value), 0, u32::MAX as int) {
            Ok(v) => Some(v as u32),
            Err(_) => None,
        },
        None => None,
    }
}

/// Finds where the value of field `key` starts in `s[from..to]`: after the
/// first `:` that follows the first occurrence of `"key"`, past whitespace.
fn field_value_start(s: &[char], from: usize, to: usize, key: &str) -> (start: Option<usize>)
    requires
        from <= to <= s@.len(),
    ensures
        match field_value(s@.subrange(from as int, to as int), key@) {
            Some(v) => start matches Some(p) && from <= p <= to && s@.subrange(p as int, to as int) == v,
            None => start is None,
        },
{
    let ghost object = s@.subrange(from as int, to as int);
    let mut needle: Vec<char> = Vec::new();
    needle.push('"');
    let key_chars = chars_of(key);
    let mut k: usize = 0;
    while k < key_chars.len()
        invariant
            k <= key_chars@.len(),
            key_chars@ == key@,
            needle@ == seq!['"'] + key_chars@.take(k as int),
        decreases key_chars@.len() - k,
    {
        needle.push(key_chars[k]);
        k = k + 1;
        assert(needle@ =~= seq!['"'] + key_chars@.take(k as int));
    }
    needle.push('"');
    assert(key_chars@.take(key_chars@.len() as int) =~= key_chars@);
    assert(needle@ =~= seq!['"'] + key@ + seq!['"']);
    let position = find_text(s, from, to, &needle);
    proof {
        lemma_first_occurrence_bounds(object, needle@, 0);
    }
    if position >= to {
        return None;
    }
    let after = position + needle.len();
    assert(object.skip(position - from + needle@.len()) =~= s@.subrange(after as int, to as int));
    let colon = find_char_in(s, after, to, ':');
    if colon >= to {
        return None;
    }
    let value_start = skip_whitespace_in(s, colon + 1, to);
    assert(s@.subrange(after as int, to as int).skip(colon - after + 1) =~= s@.subrange(
        colon + 1,
        to as int,
    ));
    Some(value_start)
}

/// The first occurrence lies within the sequence, or at its end when there
/// is none.
proof fn lemma_first_occurrence_bounds(s: Seq<char>, needle: Seq<char>, from: int)
    requires
        0 <= from,
    ensures
        from <= first_occurrence(s, needle, from) <= s.len() || first_occurrence(s, needle, from)
            == s.len(),
        first_occurrence(s, needle, from) < s.len() ==> first_occurrence(s, needle, from)
            + needle.len() <= s.len(),
    decreases s.len() - from,
{
    if from + needle.len() <= s.len() && s.subrange(from, from + needle.len()) != needle && from
        < s.len() {
        lemma_first_occurrence_bounds(s, needle, from + 1);
    }
}

/// Finds the first `c` in `s[from..to]`, or `to`.
fn find_char_in(s: &[char], from: usize, to: usize, c: char) -> (index: usize)
    requires
        from <= to <= s@.len(),
    ensures
        index == from + first_index_of(s@.subrange(from as int, to as int), c),
        from <= index <= to,
{
    let mut i = from;
    while i < to && s[i] != c
        invariant
            from <= i <= to <= s@.len(),
            first_index_of(s@.subrange(from as int, to as int), c) == (i - from) + first_index_of(
                s@.subrange(i as int, to as int),
                c,
            ),
        decreases to - i,
    {
        assert(s@.subrange(i as int, to as int)[0] == s@[i as int]);
        assert(s@.subrange(i as int, to as int).skip(1) =~= s@.subrange(i + 1, to as int));
        i = i + 1;
    }
    if i < to {
        assert(s@.subrange(i as int, to as int)[0] == s@[i as int]);
    }
    i
}

/// Skips whitespace in `s[from..to]`.
fn skip_whitespace_in(s: &[char], from: usize, to: usize) -> (index: usize)
    requires
        from <= to <= s@.len(),
    ensures
        from <= index <= to,
        s@.subrange(index as int, to as int) == spec_trim_start(s@.subrange(from as int, to as int)),
{
    let mut i = from;
    while i < to && crate::text::is_whitespace(s[i])
        invariant
            from <= i <= to <= s@.len(),
            leading_ws(s@.subrange(from as int, to as int)) == (i - from) + leading_ws(
                s@.subrange(i as int, to as int),
            ),
        decreases to - i,
    {
        assert(s@.subrange(i as int, to as int)[0] == s@[i as int]);
        assert(s@.subrange(i as int, to as int).skip(1) =~= s@.subrange(i + 1, to as int));
        i = i + 1;
    }
    if i < to {
        assert(s@.subrange(i as int, to as int)[0] == s@[i as int]);
    }
    assert(s@.subrange(from as int, to as int).skip(i - from) =~= s@.subrange(i as int, to as int));
    i
}

/// Whether a character is an ASCII decimal digit.
fn is_ascii_digit(c: char) -> (digit: bool)
    ensures
        digit == is_digit(c),
{
    let code = c as u32;
    48 <= code && code <= 57
}

/// Reads the string field `key` of the JSON object `s[from..to]`.
pub fn json_string_field(s: &[char], from: usize, to: usize, key: &str) -> (value: Option<String>)
    requires
        from <= to <= s@.len(),
    ensures
        match spec_string_field(s@.subrange(from as int, to as int), key@) {
            Some(v) => value matches Some(text) && text@ == v,
            None => value is None,
        },
{
    match field_value_start(s, from, to, key) {
        Some(start) => decode_json_string(s, start, to),
        None => None,
    }
}

/// Reads the unsigned field `key` of the JSON object `s[from..to]`.
pub fn json_u32_field(s: &[char], from: usize, to: usize, key: &str) -> (value: Option<u32>)
    requires
        from <= to <= s@.len(),
    ensures
        value == spec_u32_field(s@.subrange(from as int, to as int), key@),
{
    let start = match field_value_start(s, from, to, key) {
        Some(start) => start,
        None => {
            return None;
        },
    };
    let mut end = start;
    while end < to && is_ascii_digit(s[end])
        invariant
            start <= end <= to <= s@.len(),
            digit_run(s@.subrange(start as int, to as int)) == (end - start) + digit_run(
                s@.subrange(end as int, to as int),
            ),
        decreases to - end,
    {
        assert(s@.subrange(end as int, to as int)[0] == s@[end as int]);
        assert(s@.subrange(end as int, to as int).skip(1) =~= s@.subrange(end + 1, to as int));
        end = end + 1;
    }
    if end < to {
        assert(s@.subrange(end as int, to as int)[0] == s@[end as int]);
    }
    assert(leading_digits(s@.subrange(start as int, to as int)) =~= s@.subrange(start as int, end as int));
    let parsed = parse_int(s, start, end, 0, 0xffff_ffff);
    proof {
        let object = s@.subrange(from as int, to as int);
        assert(field_value(object, key@) == Some(s@.subrange(start as int, to as int)));
    }
    match parsed {
        Ok(v) => {
            let r = v as u32;
            proof {
                let object = s@.subrange(from as int, to as int);
                let digits = leading_digits(s@.subrange(start as int, to as int));
                crate::text::lemma_parse_int_bounds(digits, 0, u32::MAX as int);
                assert(spec_parse_int(digits, 0, u32::MAX as int) == Ok::<int, crate::text::IntParseError>(v as int));
                assert(r as int == v as int);
            }
            Some(r)
        },
        Err(_) => None,
    }
}

/// The name of a node: its description, nick or name, whichever is found
/// first, or a generic name built from its id.
pub open spec fn spec_node_name(object: Seq<char>, id: u32) -> Seq<char> {
    match spec_string_field(object, "node.description"@) {
        Some(d) => d,
        None => match spec_string_field(object, "node.nick"@) {
            Some(n) => n,
            None => match spec_string_field(object, "node.name"@) {
                Some(n) => n,
                None => "PipeWire node "@ + spec_decimal(id as nat),
            },
        },
    }
}

/// A graph object read as an audio node: its id, name and direction, when
/// it is a node whose media class is an audio source or sink.
pub open spec fn spec_parse_node(object: Seq<char>) -> Option<(u32, Seq<char>, AudioDeviceKind)> {
    match spec_string_field(object, "type"@) {
        None => None,
        Some(t) => if t != "PipeWire:Interface:Node"@ {
            None
        } else {
            match spec_string_field(object, "media.class"@) {
                None => None,
                Some(class) => if class != "Audio/Source"@ && class != "Audio/Sink"@ {
                    None
                } else {
                    match spec_u32_field(object, "id"@) {
                        None => None,
                        Some(id) => Some(
                            (
                                id,
                                spec_node_name(object, id),
                                if class == "Audio/Source"@ {
                                    AudioDeviceKind::Input
                                } else {
                                    AudioDeviceKind::Output
                                },
                            ),
                        ),
                    }
                },
            }
        },
    }
}

/// Reads the object `s[from..to]` as an audio node.
pub fn parse_node(s: &[char], from: usize, to: usize) -> (node: Option<(u32, String, AudioDeviceKind)>)
    requires
        from <= to <= s@.len(),
    ensures
        match spec_parse_node(s@.subrange(from as int, to as int)) {
            Some((id, name, kind)) => node matches Some((i, n, k)) && i == id && n@ == name && k
                == kind,
            None => node is None,
        },
{
    let node_type = match json_string_field(s, from, to, "type") {
        Some(t) => t,
        None => {
            return None;
        },
    };
    if !crate::text::str_eq(node_type.as_str(), "PipeWire:Interface:Node") {
        return None;
    }
    let class = match json_string_field(s, from, to, "media.class") {
        Some(c) => c,
        None => {
            return None;
        },
    };
    let kind = if crate::text::str_eq(class.as_str(), "Audio/Source") {
        AudioDeviceKind::Input
    } else if crate::text::str_eq(class.as_str(), "Audio/Sink") {
        AudioDeviceKind::Output
    } else {
        return None;
    };
    let id = match json_u32_field(s, from, to, "id") {
        Some(id) => id,
        None => {
            return None;
        },
    };
    let name = match json_string_field(s, from, to, "node.description") {
        Some(d) => d,
        None => match json_string_field(s, from, to, "node.nick") {
            Some(n) => n,
            None => match json_string_field(s, from, to, "node.name") {
                Some(n) => n,
                None => {
                    let mut out: Vec<char> = Vec::new();
                    push_str(&mut out, "PipeWire node ");
                    push_decimal(&mut out, id as u128);
                    string_from_chars(out)
                },
            },
        },
    };
    Some((id, name, kind))
}

/// The mathematical form of a device descriptor: id, name, kind,
/// availability and whether it is the default route.
pub type DeviceInfoView = (Seq<char>, Seq<char>, AudioDeviceKind, bool, bool);

/// The devices that the objects `objects` of `s` describe, in document
/// order: every audio node whose name is not blank.
pub open spec fn spec_node_entries(s: Seq<char>, objects: Seq<(int, int)>) -> Seq<DeviceInfoView>
    decreases objects.len(),
{
    if objects.len() == 0 {
        seq![]
    } else {
        let earlier = spec_node_entries(s, objects.drop_last());
        let (a, b) = objects.last();
        match spec_parse_node(s.subrange(a, b)) {
            Some((id, name, kind)) => {
                let device_id = NODE_ID_PREFIX@ + spec_decimal(id as nat);
                if crate::text::spec_is_blank(device_id) || crate::text::spec_is_blank(name) {
                    earlier
                } else {
                    earlier.push((device_id, name, kind, true, false))
                }
            },
            None => earlier,
        }
    }
}

/// Reads the audio nodes of a document's top-level objects, in order.
fn node_entries(s: &[char]) -> (entries: Vec<AudioDeviceInfo>)
    ensures
        entries@.map_values(|d: AudioDeviceInfo| d@) == spec_node_entries(
            s@,
            spec_top_level_objects(s@),
        ),
{
    let objects = top_level_objects(s);
    let ghost all = spec_top_level_objects(s@);
    let mut entries: Vec<AudioDeviceInfo> = Vec::new();
    let mut k: usize = 0;
    while k < objects.len()
        invariant
            k <= objects@.len(),
            objects@.len() == all.len(),
            all == spec_top_level_objects(s@),
            forall|i: int|
                0 <= i < objects@.len() ==> {
                    let (a, b) = #[trigger] objects@[i];
                    &&& (a as int, b as int) == all[i]
                    &&& a < b <= s@.len()
                },
            entries@.map_values(|d: AudioDeviceInfo| d@) == spec_node_entries(s@, all.take(k as int)),
        decreases objects@.len() - k,
    {
        let (a, b) = objects[k];
        let ghost prefix = all.take(k + 1);
        assert(prefix.drop_last() =~= all.take(k as int));
        assert(prefix.last() == (a as int, b as int));
        let ghost before = entries@;
        match parse_node(s, a, b) {
            Some((id, name, kind)) => {
                let mut id_text: Vec<char> = Vec::new();
                push_str(&mut id_text, NODE_ID_PREFIX);
                push_decimal(&mut id_text, id as u128);
                let id_string = string_from_chars(id_text);
                match AudioDeviceInfo::new(id_string.as_str(), name.as_str(), kind) {
                    Ok(device) => {
                        entries.push(device);
                        assert(entries@.map_values(|d: AudioDeviceInfo| d@) =~= before.map_values(
                            |d: AudioDeviceInfo| d@,
                        ).push(entries@.last()@));
                    },
                    Err(_) => {},
                }
            },
            None => {},
        }
        k = k + 1;
    }
    assert(all.take(objects@.len() as int) =~= all);
    entries
}

/// Whether `entries[k]` is the first entry with its id.
pub open spec fn is_first_id(entries: Seq<DeviceInfoView>, k: int) -> bool {
    forall|j: int| 0 <= j < k ==> (#[trigger] entries[j]).0 != entries[k].0
}

/// Whether ids strictly increase along `devices`.
pub open spec fn ids_increasing(devices: Seq<DeviceInfoView>) -> bool {
    forall|i: int, j: int| 0 <= i < j < devices.len() ==> lex_lt(devices[i].0, devices[j].0)
}

/// Whether `result` is the first entry of each id among the first `n`
/// entries, sorted by id.
pub open spec fn unique_sorted_upto(result: Seq<DeviceInfoView>, entries: Seq<DeviceInfoView>, n: int) -> bool {
    &&& ids_increasing(result)
    &&& forall|i: int|
        0 <= i < result.len() ==> exists|k: int|
            0 <= k < n && is_first_id(entries, k) && #[trigger] result[i] == entries[k]
    &&& forall|k: int| 0 <= k < n && is_first_id(entries, k) ==> result.contains(#[trigger] entries[k])
}

/// Whether `result` is the first entry of each id of `entries`, sorted by
/// id.
pub open spec fn unique_sorted(result: Seq<DeviceInfoView>, entries: Seq<DeviceInfoView>) -> bool {
    unique_sorted_upto(result, entries, entries.len() as int)
}

/// Keeps the first device of each id and sorts them by id.
fn sort_unique(entries: &Vec<AudioDeviceInfo>) -> (result: Vec<AudioDeviceInfo>)
    ensures
        unique_sorted(
            result@.map_values(|d: AudioDeviceInfo| d@),
            entries@.map_values(|d: AudioDeviceInfo| d@),
        ),
{
    let ghost all = entries@.map_values(|d: AudioDeviceInfo| d@);
    let mut result: Vec<AudioDeviceInfo> = Vec::new();
    let mut k: usize = 0;
    while k < entries.len()
        invariant
            k <= entries@.len(),
            all == entries@.map_values(|d: AudioDeviceInfo| d@),
            unique_sorted_upto(result@.map_values(|d: AudioDeviceInfo| d@), all, k as int),
        decreases entries@.len() - k,
    {
        let ghost rv = result@.map_values(|d: AudioDeviceInfo| d@);
        let key = chars_of(entries[k].id());
        assert(key@ == all[k as int].0);
        let mut p: usize = 0;
        while p < result.len() && chars_lt(chars_of(result[p].id()).as_slice(), key.as_slice())
            invariant
                p <= result@.len(),
                rv == result@.map_values(|d: AudioDeviceInfo| d@),
                key@ == all[k as int].0,
                forall|q: int| 0 <= q < p ==> lex_lt(rv[q].0, key@),
            decreases result@.len() - p,
        {
            p = p + 1;
        }
        if p < result.len() && crate::text::chars_eq(chars_of(result[p].id()).as_slice(), key.as_slice()) {
            proof {
                lemma_unique_skip(rv, all, k as int, p as int);
            }
        } else {
            proof {
                if p < rv.len() {
                    lemma_lex_order(rv[p as int].0, key@);
                }
                lemma_unique_insert(rv, all, k as int, p as int);
            }
            let device = entries[k].clone();
            result.insert(p, device);
            assert(result@.map_values(|d: AudioDeviceInfo| d@) =~= rv.insert(p as int, all[k as int]));
        }
        k = k + 1;
    }
    result
}

/// The index of the first entry with the same id as `entries[j]`, which is
/// a first entry of its id.
pub open spec fn first_with_id(entries: Seq<DeviceInfoView>, j: int) -> int
    decreases j,
{
    if j <= 0 {
        0
    } else if exists|m: int| 0 <= m < j && #[trigger] entries[m].0 == entries[j].0 {
        first_with_id(entries, choose|m: int| 0 <= m < j && #[trigger] entries[m].0 == entries[j].0)
    } else {
        j
    }
}

proof fn lemma_first_with_id(entries: Seq<DeviceInfoView>, j: int)
    requires
        0 <= j < entries.len(),
    ensures
        0 <= first_with_id(entries, j) <= j,
        entries[first_with_id(entries, j)].0 == entries[j].0,
        is_first_id(entries, first_with_id(entries, j)),
    decreases j,
{
    if j > 0 && exists|m: int| 0 <= m < j && #[trigger] entries[m].0 == entries[j].0 {
        let m = choose|m: int| 0 <= m < j && #[trigger] entries[m].0 == entries[j].0;
        lemma_first_with_id(entries, m);
    }
}

proof fn lemma_unique_skip(rv: Seq<DeviceInfoView>, all: Seq<DeviceInfoView>, k: int, p: int)
    requires
        0 <= k < all.len(),
        unique_sorted_upto(rv, all, k),
        0 <= p < rv.len(),
        rv[p].0 == all[k].0,
    ensures
        unique_sorted_upto(rv, all, k + 1),
{
    assert(exists|m: int| 0 <= m < k && is_first_id(all, m) && #[trigger] rv[p] == all[m]);
    let w = choose|w: int| 0 <= w < k && is_first_id(all, w) && rv[p] == all[w];
    assert(all[w].0 == all[k].0);
    assert(!is_first_id(all, k));
    assert forall|i: int| 0 <= i < rv.len() implies exists|m: int|
        0 <= m < k + 1 && is_first_id(all, m) && #[trigger] rv[i] == all[m] by {
        let m = choose|m: int| 0 <= m < k && is_first_id(all, m) && rv[i] == all[m];
    }
}

proof fn lemma_unique_insert(rv: Seq<DeviceInfoView>, all: Seq<DeviceInfoView>, k: int, p: int)
    requires
        0 <= k < all.len(),
        unique_sorted_upto(rv, all, k),
        0 <= p <= rv.len(),
        forall|q: int| 0 <= q < p ==> lex_lt(rv[q].0, all[k].0),
        p < rv.len() ==> rv[p].0 != all[k].0 && !lex_lt(rv[p].0, all[k].0),
        p < rv.len() ==> lex_lt(rv[p].0, all[k].0) || lex_lt(all[k].0, rv[p].0),
    ensures
        unique_sorted_upto(rv.insert(p, all[k]), all, k + 1),
{
    let key = all[k].0;
    if p < rv.len() {
        assert forall|q: int| p < q < rv.len() implies lex_lt(key, rv[q].0) by {
            lemma_lex_transitive(key, rv[p].0, rv[q].0);
        }
    }
    assert forall|j: int| 0 <= j < k implies (#[trigger] all[j]).0 != all[k].0 by {
        if all[j].0 == all[k].0 {
            lemma_first_with_id(all, j);
            let f = first_with_id(all, j);
            assert(rv.contains(all[f]));
            let q = choose|q: int| 0 <= q < rv.len() && rv[q] == all[f];
            lemma_lex_order(key, key);
            if q > p {
                assert(lex_lt(key, rv[q].0));
            }
        }
    }
    assert(is_first_id(all, k));
    let nv = rv.insert(p, all[k]);
    assert forall|i: int, j: int| 0 <= i < j < nv.len() implies lex_lt(nv[i].0, nv[j].0) by {
        if i < p && j == p {
        } else if i < p && j > p {
            assert(nv[j] == rv[j - 1]);
        } else if i == p && j > p {
            assert(nv[j] == rv[j - 1]);
        } else if i > p {
            assert(nv[i] == rv[i - 1]);
            assert(nv[j] == rv[j - 1]);
        }
    }
    assert forall|i: int| 0 <= i < nv.len() implies exists|m: int|
        0 <= m < k + 1 && is_first_id(all, m) && #[trigger] nv[i] == all[m] by {
        if i == p {
            assert(nv[i] == all[k]);
        } else {
            let r = if i < p {
                i
            } else {
                i - 1
            };
            assert(nv[i] == rv[r]);
            let m = choose|m: int| 0 <= m < k && is_first_id(all, m) && rv[r] == all[m];
        }
    }
    assert forall|m: int| 0 <= m < k + 1 && is_first_id(all, m) implies nv.contains(
        #[trigger] all[m],
    ) by {
        if m == k {
            assert(nv[p] == all[m]);
        } else {
            assert(rv.contains(all[m]));
            let q = choose|q: int| 0 <= q < rv.len() && rv[q] == all[m];
            if q < p {
                assert(nv[q] == rv[q]);
            } else {
                assert(nv[q + 1] == rv[q]);
            }
        }
    }
}


/// The default input route's descriptor.
pub open spec fn default_input_view() -> DeviceInfoView {
    (DEFAULT_INPUT_ID@, "PipeWire default input"@, AudioDeviceKind::Input, true, false)
}

/// The default output route's descriptor.
pub open spec fn default_output_view() -> DeviceInfoView {
    (DEFAULT_OUTPUT_ID@, "PipeWire default output"@, AudioDeviceKind::Output, true, false)
}

/// Whether some device has the given kind.
pub open spec fn has_kind(devices: Seq<DeviceInfoView>, kind: AudioDeviceKind) -> bool {
    exists|i: int| 0 <= i < devices.len() && (#[trigger] devices[i]).2 == kind
}

/// The index of the first device of the given kind, or the length.
pub open spec fn first_of_kind(devices: Seq<DeviceInfoView>, kind: AudioDeviceKind) -> int
    decreases devices.len(),
{
    if devices.len() == 0 {
        0
    } else if devices[0].2 == kind {
        0
    } else {
        1 + first_of_kind(devices.skip(1), kind)
    }
}

/// The catalog with a default route in front of the devices of each kind
/// that is present: the default input first, the default output just
/// before the first output device.
pub open spec fn spec_with_defaults(devices: Seq<DeviceInfoView>) -> Seq<DeviceInfoView> {
    let with_input = if has_kind(devices, AudioDeviceKind::Input) {
        seq![default_input_view()] + devices
    } else {
        devices
    };
    if has_kind(devices, AudioDeviceKind::Output) {
        with_input.insert(first_of_kind(with_input, AudioDeviceKind::Output), default_output_view())
    } else {
        with_input
    }
}

/// Returns whether some device has the given kind.
fn any_of_kind(devices: &Vec<AudioDeviceInfo>, kind: AudioDeviceKind) -> (found: bool)
    ensures
        found == has_kind(devices@.map_values(|d: AudioDeviceInfo| d@), kind),
{
    let ghost dv = devices@.map_values(|d: AudioDeviceInfo| d@);
    let mut i: usize = 0;
    while i < devices.len()
        invariant
            i <= devices@.len(),
            dv == devices@.map_values(|d: AudioDeviceInfo| d@),
            forall|j: int| 0 <= j < i ==> (#[trigger] dv[j]).2 != kind,
        decreases devices@.len() - i,
    {
        if devices[i].kind() == kind {
            assert(dv[i as int].2 == kind);
            return true;
        }
        i = i + 1;
    }
    false
}

/// Returns the index of the first device of the given kind, or the length.
fn position_of_kind(devices: &Vec<AudioDeviceInfo>, kind: AudioDeviceKind) -> (index: usize)
    ensures
        index == first_of_kind(devices@.map_values(|d: AudioDeviceInfo| d@), kind),
        index <= devices@.len(),
{
    let ghost dv = devices@.map_values(|d: AudioDeviceInfo| d@);
    let mut i: usize = 0;
    assert(dv.skip(0) =~= dv);
    while i < devices.len() && devices[i].kind() != kind
        invariant
            i <= devices@.len(),
            dv == devices@.map_values(|d: AudioDeviceInfo| d@),
            first_of_kind(dv, kind) == i + first_of_kind(dv.skip(i as int), kind),
        decreases devices@.len() - i,
    {
        assert(dv.skip(i as int)[0] == dv[i as int]);
        assert(dv.skip(i as int).skip(1) =~= dv.skip(i + 1));
        i = i + 1;
    }
    if i < devices.len() {
        assert(dv.skip(i as int)[0] == dv[i as int]);
    }
    i
}

/// Adds the default routes for the kinds that are present.
fn with_default_routes(devices: Vec<AudioDeviceInfo>) -> (result: Vec<AudioDeviceInfo>)
    ensures
        result@.map_values(|d: AudioDeviceInfo| d@) == spec_with_defaults(
            devices@.map_values(|d: AudioDeviceInfo| d@),
        ),
{
    let ghost dv = devices@.map_values(|d: AudioDeviceInfo| d@);
    let has_input = any_of_kind(&devices, AudioDeviceKind::Input);
    let has_output = any_of_kind(&devices, AudioDeviceKind::Output);
    let mut devices = devices;
    proof {
        reveal_strlit("pipewire-default");
        reveal_strlit("PipeWire default input");
        reveal_strlit("pipewire-default-output");
        reveal_strlit("PipeWire default output");
        assert(!crate::text::spec_is_whitespace(DEFAULT_INPUT_ID@[0]));
        assert(!crate::text::spec_is_whitespace("PipeWire default input"@[0]));
        assert(!crate::text::spec_is_whitespace(DEFAULT_OUTPUT_ID@[0]));
        assert(!crate::text::spec_is_whitespace("PipeWire default output"@[0]));
    }
    if has_input {
        let default_input = match AudioDeviceInfo::new(
            DEFAULT_INPUT_ID,
            "PipeWire default input",
            AudioDeviceKind::Input,
        ) {
            Ok(d) => d,
            Err(_) => {
                return devices;
            },
        };
        let ghost before = devices@.map_values(|d: AudioDeviceInfo| d@);
        devices.insert(0, default_input);
        assert(devices@.map_values(|d: AudioDeviceInfo| d@) =~= seq![default_input_view()] + before);
    }
    let ghost with_input = devices@.map_values(|d: AudioDeviceInfo| d@);
    if has_output {
        let index = position_of_kind(&devices, AudioDeviceKind::Output);
        let default_output = match AudioDeviceInfo::new(
            DEFAULT_OUTPUT_ID,
            "PipeWire default output",
            AudioDeviceKind::Output,
        ) {
            Ok(d) => d,
            Err(_) => {
                return devices;
            },
        };
        devices.insert(index, default_output);
        assert(devices@.map_values(|d: AudioDeviceInfo| d@) =~= with_input.insert(
            index as int,
            default_output_view(),
        ));
    }
    devices
}

/// The devices that a `pw-dump` document describes.
pub open spec fn spec_discover_devices(
    document: Seq<char>,
    result: Seq<DeviceInfoView>,
) -> bool {
    exists|sorted: Seq<DeviceInfoView>|
        unique_sorted(sorted, spec_node_entries(document, spec_top_level_objects(document)))
            && result == spec_with_defaults(sorted)
}

/// Reads the audio devices of a `pw-dump` document: every audio source and
/// sink with a non-blank name, as `pipewire-node-<id>`, the first of each
/// id only, sorted by id, with the default routes in front of their kinds.
pub fn discover_devices(document: &str) -> (devices: Vec<AudioDeviceInfo>)
    ensures
        spec_discover_devices(document@, devices@.map_values(|d: AudioDeviceInfo| d@)),
{
    let s = chars_of(document);
    let entries = node_entries(&s);
    let sorted = sort_unique(&entries);
    let ghost sv = sorted@.map_values(|d: AudioDeviceInfo| d@);
    let result = with_default_routes(sorted);
    assert(unique_sorted(sv, spec_node_entries(document@, spec_top_level_objects(document@))));
    result
}

/// The node that opening `device_id` targets in direction `what` ("input"
/// or "output"): none for the direction's default route, the node of a
/// stable node id, and an error for any other id.
pub open spec fn spec_open_target(device_id: Seq<char>, default_id: Seq<char>, what: Seq<char>) -> Result<
    Option<Seq<char>>,
    Seq<char>,
> {
    if device_id == default_id {
        Ok(None)
    } else {
        match spec_node_target(device_id) {
            Some(t) => Ok(Some(t)),
            None => Err("unknown PipeWire "@ + what + " "@ + device_id),
        }
    }
}

/// Resolves the node that opening an input device targets, before any
/// process is started.
pub fn input_target(device_id: &str) -> (result: Result<Option<&str>, AudioDeviceError>)
    ensures
        match spec_open_target(device_id@, DEFAULT_INPUT_ID@, "input"@) {
            Ok(None) => result matches Ok(None),
            Ok(Some(t)) => result matches Ok(Some(found)) && found@ == t,
            Err(reason) => result matches Err(AudioDeviceError::Unavailable(r)) && r@ == reason,
        },
{
    open_target(device_id, DEFAULT_INPUT_ID, "input")
}

/// Resolves the node that opening an output device targets, before any
/// process is started.
pub fn output_target(device_id: &str) -> (result: Result<Option<&str>, AudioDeviceError>)
    ensures
        match spec_open_target(device_id@, DEFAULT_OUTPUT_ID@, "output"@) {
            Ok(None) => result matches Ok(None),
            Ok(Some(t)) => result matches Ok(Some(found)) && found@ == t,
            Err(reason) => result matches Err(AudioDeviceError::Unavailable(r)) && r@ == reason,
        },
{
    open_target(device_id, DEFAULT_OUTPUT_ID, "output")
}

fn open_target<'a>(device_id: &'a str, default_id: &str, what: &str) -> (result: Result<
    Option<&'a str>,
    AudioDeviceError,
>)
    ensures
        match spec_open_target(device_id@, default_id@, what@) {
            Ok(None) => result matches Ok(None),
            Ok(Some(t)) => result matches Ok(Some(found)) && found@ == t,
            Err(reason) => result matches Err(AudioDeviceError::Unavailable(r)) && r@ == reason,
        },
{
    if str_eq(device_id, default_id) {
        return Ok(None);
    }
    match node_target(device_id) {
        Some(target) => Ok(Some(target)),
        None => {
            let mut out: Vec<char> = Vec::new();
            push_str(&mut out, "unknown PipeWire ");
            push_str(&mut out, what);
            push_str(&mut out, " ");
            push_str(&mut out, device_id);
            Err(AudioDeviceError::Unavailable(string_from_chars(out)))
        },
    }
}

/// The `pw-cat` arguments of a raw 32-bit float stream: the direction, the
/// format, the target node when there is one, and `-` for the pipe.
pub open spec fn spec_cat_args(playback: bool, format: AudioFormat, target: Option<Seq<char>>) -> Seq<
    Seq<char>,
> {
    let base = seq![
        if playback {
            "--playback"@
        } else {
            "--record"@
        },
        "--raw"@,
        "--format"@,
        "f32"@,
        "--rate"@,
        spec_decimal(format.spec_sample_rate() as nat),
        "--channels"@,
        spec_decimal(format.spec_channels() as nat),
    ];
    let with_target = match target {
        Some(t) => base + seq!["--target"@, t],
        None => base,
    };
    with_target.push("-"@)
}

/// Builds the `pw-cat` command line for a capture (`playback` false) or
/// playback stream.
pub fn cat_args(playback: bool, format: AudioFormat, target: Option<&str>) -> (args: Vec<String>)
    ensures
        ({
            let t = match target {
                Some(t) => Some(t@),
                None => None::<Seq<char>>,
            };
            &&& args@.len() == spec_cat_args(playback, format, t).len()
            &&& forall|i: int|
                0 <= i < args@.len() ==> (#[trigger] args@[i])@ == spec_cat_args(playback, format, t)[i]
        }),
{
    let mut args: Vec<String> = Vec::new();
    if playback {
        args.push("--playback".to_owned());
    } else {
        args.push("--record".to_owned());
    }
    args.push("--raw".to_owned());
    args.push("--format".to_owned());
    args.push("f32".to_owned());
    args.push("--rate".to_owned());
    args.push(decimal_string(format.sample_rate() as u128));
    args.push("--channels".to_owned());
    args.push(decimal_string(format.channels() as u128));
    match target {
        Some(t) => {
            args.push("--target".to_owned());
            args.push(t.to_owned());
        },
        None => {},
    }
    args.push("-".to_owned());
    args
}

/// The devices of a discovery document, refused when there is none.
pub fn discovered_devices(document: &str) -> (result: Result<Vec<AudioDeviceInfo>, AudioDeviceError>)
    ensures
        match result {
            Ok(devices) => devices@.len() > 0 && spec_discover_devices(
                document@,
                devices@.map_values(|d: AudioDeviceInfo| d@),
            ),
            Err(error) => (error matches AudioDeviceError::Unavailable(r) && r@
                == "PipeWire has no discoverable audio node"@) && spec_discover_devices(
                document@,
                Seq::<DeviceInfoView>::empty(),
            ),
        },
{
    let devices = discover_devices(document);
    if devices.len() == 0 {
        proof {
            reveal_strlit("PipeWire has no discoverable audio node");
            assert(devices@.map_values(|d: AudioDeviceInfo| d@) =~= Seq::<DeviceInfoView>::empty());
        }
        return Err(AudioDeviceError::Unavailable("PipeWire has no discoverable audio node".to_owned()));
    }
    Ok(devices)
}

/// Whether a device is an output.
pub open spec fn is_output(v: DeviceInfoView) -> bool {
    v.2 == AudioDeviceKind::Output
}

/// The output devices among discovered devices, in order.
pub fn output_devices(devices: &Vec<AudioDeviceInfo>) -> (outputs: Vec<AudioDeviceInfo>)
    ensures
        outputs@.map_values(|d: AudioDeviceInfo| d@) == devices@.map_values(|d: AudioDeviceInfo| d@).filter(
            |v: DeviceInfoView| is_output(v),
        ),
{
    let ghost all = devices@.map_values(|d: AudioDeviceInfo| d@);
    let ghost pred = |v: DeviceInfoView| is_output(v);
    let mut outputs: Vec<AudioDeviceInfo> = Vec::new();
    let mut i: usize = 0;
    while i < devices.len()
        invariant
            i <= devices@.len(),
            all == devices@.map_values(|d: AudioDeviceInfo| d@),
            pred == (|v: DeviceInfoView| is_output(v)),
            outputs@.map_values(|d: AudioDeviceInfo| d@) == all.take(i as int).filter(pred),
        decreases devices@.len() - i,
    {
        proof {
            assert(all.take(i + 1) =~= all.take(i as int).push(all[i as int]));
            all.take(i as int).lemma_filter_push(all[i as int], pred);
        }
        if devices[i].kind() == AudioDeviceKind::Output {
            let copy = devices[i].clone();
            let ghost before = outputs@.map_values(|d: AudioDeviceInfo| d@);
            outputs.push(copy);
            assert(outputs@.map_values(|d: AudioDeviceInfo| d@) =~= before.push(all[i as int]));
        }
        i = i + 1;
    }
    assert(all.take(devices@.len() as int) =~= all);
    outputs
}

/// The number of bytes of a raw 32-bit float block of `frames` frames of
/// `channels` channels, refused for an empty block and for a size that a
/// `usize` cannot hold.
pub fn block_byte_count(frames: usize, channels: u16) -> (result: Result<usize, AudioDeviceError>)
    ensures
        frames == 0 ==> (result matches Err(AudioDeviceError::InvalidDevice(r)) && r@
            == "PipeWire audio blocks must contain at least one frame"@),
        frames > 0 && frames * channels > usize::MAX ==> (result matches Err(
            AudioDeviceError::InvalidDevice(r),
        ) && r@ == "audio block is too large"@),
        frames > 0 && frames * channels <= usize::MAX && frames * channels * 4 > usize::MAX ==> (
        result matches Err(AudioDeviceError::InvalidDevice(r)) && r@
            == "audio block byte size overflowed"@),
        frames > 0 && frames * channels * 4 <= usize::MAX ==> result == Ok::<
            usize,
            AudioDeviceError,
        >((frames * channels * 4) as usize),
{
    proof {
        reveal_strlit("PipeWire audio blocks must contain at least one frame");
        reveal_strlit("audio block is too large");
        reveal_strlit("audio block byte size overflowed");
    }
    if frames == 0 {
        return Err(
            AudioDeviceError::InvalidDevice("PipeWire audio blocks must contain at least one frame".to_owned()),
        );
    }
    let samples = match frames.checked_mul(channels as usize) {
        Some(n) => n,
        None => {
            return Err(AudioDeviceError::InvalidDevice("audio block is too large".to_owned()));
        },
    };
    match samples.checked_mul(4) {
        Some(n) => Ok(n),
        None => {
            assert(frames * channels * 4 > usize::MAX);
            Err(AudioDeviceError::InvalidDevice("audio block byte size overflowed".to_owned()))
        },
    }
}

} // verus!
