//! The hardware acceptance run's verdicts and report.
//!
//! The acceptance run exercises real capture and audio hardware and
//! reports one line per check. This module holds what is decided from the
//! observations: which checks a run requires, how a skipped required check
//! is judged, how details are written for machines, which device a check
//! uses, which capture window is kept, and what the display catalog must
//! satisfy.
use vstd::prelude::*;

use crate::capture::ascii_lower;
use crate::device::{AudioDeviceInfo, AudioDeviceKind};
use crate::text::{
    chars_of, is_whitespace, push_decimal, push_str, spec_decimal, spec_is_whitespace,
    spec_starts_with, spec_trim, str_eq, string_from_chars, trim_range,
};
use crate::windows_discovery::WindowsDisplayInfo;

verus! {

/// How a check ended.
#[derive(Clone, Copy, Debug, PartialEq, Eq, Structural)]
pub enum CheckStatus {
    Pass,
    Skip,
    Fail,
}

/// The word under which a status is reported.
pub open spec fn spec_status_word(status: CheckStatus) -> Seq<char> {
    match status {
        CheckStatus::Pass => "pass"@,
        CheckStatus::Skip => "skip"@,
        CheckStatus::Fail => "fail"@,
    }
}

impl CheckStatus {
    /// The word under which the status is reported.
    pub fn word(self) -> (word: &'static str)
        ensures
            word@ == spec_status_word(self),
    {
        match self {
            CheckStatus::Pass => "pass",
            CheckStatus::Skip => "skip",
            CheckStatus::Fail => "fail",
        }
    }
}

/// The outcome of one check with its detail.
#[derive(Clone, Debug, PartialEq, Eq)]
pub struct CheckResult {
    pub status: CheckStatus,
    pub detail: String,
}

impl CheckResult {
    /// A passed check.
    pub fn pass(detail: String) -> (result: Self)
        ensures
            result.status == CheckStatus::Pass,
            result.detail == detail,
    {
        CheckResult { status: CheckStatus::Pass, detail }
    }

    /// A skipped check.
    pub fn skip(detail: String) -> (result: Self)
        ensures
            result.status == CheckStatus::Skip,
            result.detail == detail,
    {
        CheckResult { status: CheckStatus::Skip, detail }
    }

    /// A failed check.
    pub fn fail(detail: String) -> (result: Self)
        ensures
            result.status == CheckStatus::Fail,
            result.detail == detail,
    {
        CheckResult { status: CheckStatus::Fail, detail }
    }
}

/// The uppercase form of an ASCII letter; other characters are unchanged.
pub open spec fn ascii_upper(c: char) -> char {
    if 'a' as u32 <= c as u32 <= 'z' as u32 {
        ((c as u32) - 32) as char
    } else {
        c
    }
}

/// The environment variable that makes check `name` required.
pub open spec fn spec_requirement_variable(name: Seq<char>) -> Seq<char> {
    "OBS_RS_REQUIRE_"@ + name.map_values(|c: char| ascii_upper(c))
}

pub(crate) fn upper(c: char) -> (u: char)
    ensures
        u == ascii_upper(c),
{
    if 'a' <= c && c <= 'z' {
        ((c as u32) - 32) as u8 as char
    } else {
        c
    }
}

pub(crate) fn lower(c: char) -> (l: char)
    ensures
        l == ascii_lower(c),
{
    if 'A' <= c && c <= 'Z' {
        ((c as u32) + 32) as u8 as char
    } else {
        c
    }
}

/// Returns the environment variable that makes check `name` required.
pub fn requirement_variable(name: &str) -> (variable: String)
    ensures
        variable@ == spec_requirement_variable(name@),
{
    let chars = chars_of(name);
    let mut out: Vec<char> = Vec::new();
    push_str(&mut out, "OBS_RS_REQUIRE_");
    let ghost prefix = out@;
    let mut i: usize = 0;
    while i < chars.len()
        invariant
            i <= chars@.len(),
            chars@ == name@,
            out@ == prefix + chars@.take(i as int).map_values(|c: char| ascii_upper(c)),
        decreases chars@.len() - i,
    {
        let c = chars[i];
        out.push(upper(c));
        i = i + 1;
        assert(out@ =~= prefix + chars@.take(i as int).map_values(|c: char| ascii_upper(c)));
    }
    assert(chars@.take(chars@.len() as int) =~= chars@);
    string_from_chars(out)
}

/// Whether an environment flag's value turns it on: `1`, `true`, `yes` or
/// `on`, trimmed and ignoring ASCII case.
pub open spec fn spec_flag_is_set(value: Seq<char>) -> bool {
    let v = spec_trim(value).map_values(|c: char| ascii_lower(c));
    v == "1"@ || v == "true"@ || v == "yes"@ || v == "on"@
}

/// Returns whether an environment flag's value turns it on.
pub fn flag_is_set(value: &str) -> (set: bool)
    ensures
        set == spec_flag_is_set(value@),
{
    let chars = chars_of(value);
    let (a, b) = trim_range(chars.as_slice(), 0, chars.len());
    assert(chars@.subrange(0, chars@.len() as int) =~= chars@);
    let ghost trimmed = chars@.subrange(a as int, b as int);
    let mut lowered: Vec<char> = Vec::new();
    let mut i = a;
    while i < b
        invariant
            a <= i <= b <= chars@.len(),
            trimmed == chars@.subrange(a as int, b as int),
            lowered@ == trimmed.take(i - a).map_values(|c: char| ascii_lower(c)),
        decreases b - i,
    {
        let c = chars[i];
        assert(trimmed[i - a] == c);
        lowered.push(lower(c));
        i = i + 1;
        assert(lowered@ =~= trimmed.take(i - a).map_values(|c: char| ascii_lower(c)));
    }
    assert(trimmed.take((b - a) as int) =~= trimmed);
    let text = string_from_chars(lowered);
    crate::text::str_eq(text.as_str(), "1") || crate::text::str_eq(text.as_str(), "true")
        || crate::text::str_eq(text.as_str(), "yes") || crate::text::str_eq(text.as_str(), "on")
}

/// Whether check `name` is required: its own flag is set, or it is a
/// production check and the production flag is set.
pub fn required_check(name: &str, own_flag: bool, production_flag: bool) -> (required: bool)
    ensures
        required == (own_flag || (spec_starts_with(name@, "production_"@) && production_flag)),
{
    proof {
        reveal_strlit("production_");
    }
    let chars = chars_of(name);
    let starts = crate::text::range_starts_with(chars.as_slice(), 0, chars.len(), "production_");
    assert(chars@.subrange(0, chars@.len() as int) =~= chars@);
    own_flag || (starts && production_flag)
}

/// A required check may not be skipped: its skip is reported as a failure
/// that keeps the reason.
pub fn enforce_requirement(result: CheckResult, required: bool) -> (judged: CheckResult)
    ensures
        if result.status == CheckStatus::Skip && required {
            judged.status == CheckStatus::Fail && judged.detail@ == "required check skipped: "@
                + result.detail@
        } else {
            judged == result
        },
{
    if result.status == CheckStatus::Skip && required {
        let mut out: Vec<char> = Vec::new();
        push_str(&mut out, "required check skipped: ");
        push_str(&mut out, result.detail.as_str());
        CheckResult { status: CheckStatus::Fail, detail: string_from_chars(out) }
    } else {
        result
    }
}

/// The words of a text, as `split_whitespace` gives them, joined with `_`.
pub open spec fn spec_machine_detail(s: Seq<char>) -> Seq<char>
    decreases s.len(),
{
    spec_join_words(s, false)
}

/// The words of `s` joined with `_`, where `pending` says whether a word
/// was written and another would need a separator first.
pub open spec fn spec_join_words(s: Seq<char>, pending: bool) -> Seq<char>
    decreases s.len(),
{
    if s.len() == 0 {
        Seq::empty()
    } else if spec_is_whitespace(s[0]) {
        spec_join_words(s.skip(1), pending)
    } else {
        let word = spec_word(s);
        let rest = s.skip(word.len() as int);
        proof {
            lemma_word_prefix(s);
        }
        (if pending {
            seq!['_']
        } else {
            Seq::empty()
        }) + word + spec_join_words(rest, true)
    }
}

/// The leading run of non-whitespace characters of `s`.
pub open spec fn spec_word(s: Seq<char>) -> Seq<char>
    decreases s.len(),
{
    if s.len() == 0 || spec_is_whitespace(s[0]) {
        Seq::empty()
    } else {
        seq![s[0]] + spec_word(s.skip(1))
    }
}

/// A word is a non-empty prefix of a text that starts with a
/// non-whitespace character.
pub proof fn lemma_word_prefix(s: Seq<char>)
    ensures
        spec_word(s).len() <= s.len(),
        s.len() > 0 && !spec_is_whitespace(s[0]) ==> spec_word(s).len() > 0,
        spec_word(s) == s.take(spec_word(s).len() as int),
    decreases s.len(),
{
    if s.len() > 0 && !spec_is_whitespace(s[0]) {
        lemma_word_prefix(s.skip(1));
        assert(spec_word(s) =~= s.take(spec_word(s).len() as int));
    }
}

/// Writes a detail for machines: its whitespace-separated words joined with
/// `_`.
pub fn machine_detail(detail: &str) -> (text: String)
    ensures
        text@ == spec_machine_detail(detail@),
{
    let s = chars_of(detail);
    let mut out: Vec<char> = Vec::new();
    let mut pending = false;
    let mut i: usize = 0;
    assert(s@.skip(0) =~= s@);
    while i < s.len()
        invariant
            i <= s@.len(),
            s@ == detail@,
            out@ + spec_join_words(s@.skip(i as int), pending) == spec_machine_detail(detail@),
        decreases s@.len() - i,
    {
        let ghost rest = s@.skip(i as int);
        if is_whitespace(s[i]) {
            assert(rest.skip(1) =~= s@.skip(i + 1));
            i = i + 1;
        } else {
            proof {
                lemma_word_prefix(rest);
            }
            let start = i;
            let ghost before = out@;
            if pending {
                out.push('_');
            }
            let ghost sep = out@;
            while i < s.len() && !is_whitespace(s[i])
                invariant
                    start <= i <= s@.len(),
                    s@ == detail@,
                    rest == s@.skip(start as int),
                    out@ == sep + s@.subrange(start as int, i as int),
                    spec_word(rest) == s@.subrange(start as int, i as int) + spec_word(
                        s@.skip(i as int),
                    ),
                decreases s@.len() - i,
            {
                out.push(s[i]);
                assert(s@.skip(i as int).skip(1) =~= s@.skip(i + 1));
                i = i + 1;
                assert(out@ =~= sep + s@.subrange(start as int, i as int));
                assert(s@.subrange(start as int, i as int) =~= s@.subrange(start as int, i - 1)
                    + seq![s@[i - 1]]);
            }
            assert(spec_word(rest) =~= s@.subrange(start as int, i as int));
            assert(rest.skip(spec_word(rest).len() as int) =~= s@.skip(i as int));
            assert(out@ =~= before + (if pending {
                seq!['_']
            } else {
                Seq::empty()
            }) + spec_word(rest));
            pending = true;
        }
    }
    string_from_chars(out)
}

/// The report line of one check.
pub open spec fn spec_report_line(name: Seq<char>, result: CheckResult) -> Seq<char> {
    "check="@ + name + " status="@ + spec_status_word(result.status) + " detail="@
        + spec_machine_detail(result.detail@)
}

/// Returns the report line of one check.
pub fn report_line(name: &str, result: &CheckResult) -> (line: String)
    ensures
        line@ == spec_report_line(name@, *result),
{
    let mut out: Vec<char> = Vec::new();
    push_str(&mut out, "check=");
    push_str(&mut out, name);
    push_str(&mut out, " status=");
    push_str(&mut out, result.status.word());
    push_str(&mut out, " detail=");
    let detail = machine_detail(result.detail.as_str());
    push_str(&mut out, detail.as_str());
    assert(out@ =~= spec_report_line(name@, *result));
    string_from_chars(out)
}

/// Whether any check failed; the run then exits unsuccessfully.
pub fn any_failed(results: &Vec<CheckResult>) -> (failed: bool)
    ensures
        failed == exists|i: int| 0 <= i < results@.len() && (#[trigger] results@[i]).status
            == CheckStatus::Fail,
{
    let mut i: usize = 0;
    while i < results.len()
        invariant
            i <= results@.len(),
            forall|j: int| 0 <= j < i ==> (#[trigger] results@[j]).status != CheckStatus::Fail,
        decreases results@.len() - i,
    {
        if results[i].status == CheckStatus::Fail {
            return true;
        }
        i = i + 1;
    }
    false
}

/// The most characters of a tool's output kept in a detail.
pub const MAX_EXTERNAL_OUTPUT_CHARS: usize = 512;

/// One character of a tool's output as a detail keeps it: line breaks and
/// tabs become spaces.
pub open spec fn detail_char(c: char) -> char {
    if c == '\r' || c == '\n' || c == '\t' {
        ' '
    } else {
        c
    }
}

/// Keeps at most [`MAX_EXTERNAL_OUTPUT_CHARS`] characters of a tool's
/// output, on one line.
pub fn bounded_external_output(value: &str) -> (text: String)
    ensures
        text@ == value@.take(
            if value@.len() < MAX_EXTERNAL_OUTPUT_CHARS {
                value@.len() as int
            } else {
                MAX_EXTERNAL_OUTPUT_CHARS as int
            },
        ).map_values(|c: char| detail_char(c)),
{
    let s = chars_of(value);
    let n = if s.len() < MAX_EXTERNAL_OUTPUT_CHARS {
        s.len()
    } else {
        MAX_EXTERNAL_OUTPUT_CHARS
    };
    let mut out: Vec<char> = Vec::new();
    let mut i: usize = 0;
    while i < n
        invariant
            i <= n <= s@.len(),
            s@ == value@,
            out@ == s@.take(i as int).map_values(|c: char| detail_char(c)),
        decreases n - i,
    {
        let c = s[i];
        out.push(if c == '\r' || c == '\n' || c == '\t' {
            ' '
        } else {
            c
        });
        i = i + 1;
        assert(s@.take(i as int).map_values(|c: char| detail_char(c)) =~= s@.take(
            (i - 1) as int,
        ).map_values(|c: char| detail_char(c)).push(detail_char(c)));
    }
    string_from_chars(out)
}

/// Returns the position of the device a check uses for `kind`: the first
/// available default one, or else the first available one.
pub fn selected_audio_device(devices: &Vec<AudioDeviceInfo>, kind: AudioDeviceKind) -> (index: Option<usize>)
    ensures
        match index {
            Some(i) => {
                let v = devices@.map_values(|d: AudioDeviceInfo| d@);
                &&& i < devices@.len()
                &&& v[i as int].2 == kind && v[i as int].3
                &&& (v[i as int].4 || forall|j: int| 0 <= j < v.len() ==> !(v[j].2 == kind && v[j].3 && v[j].4))
                &&& forall|j: int| 0 <= j < i ==> !(v[j].2 == kind && v[j].3 && (v[j].4 || !v[i as int].4))
            },
            None => forall|j: int| 0 <= j < devices@.len() ==> !(devices@[j]@.2 == kind && devices@[j]@.3),
        },
{
    let ghost v = devices@.map_values(|d: AudioDeviceInfo| d@);
    let mut i: usize = 0;
    while i < devices.len()
        invariant
            i <= devices@.len(),
            v == devices@.map_values(|d: AudioDeviceInfo| d@),
            forall|j: int| 0 <= j < i ==> !(v[j].2 == kind && v[j].3 && v[j].4),
        decreases devices@.len() - i,
    {
        if devices[i].kind() == kind && devices[i].available() && devices[i].is_default() {
            return Some(i);
        }
        i = i + 1;
    }
    let mut i: usize = 0;
    while i < devices.len()
        invariant
            i <= devices@.len(),
            v == devices@.map_values(|d: AudioDeviceInfo| d@),
            forall|j: int| 0 <= j < v.len() ==> !(v[j].2 == kind && v[j].3 && v[j].4),
            forall|j: int| 0 <= j < i ==> !(v[j].2 == kind && v[j].3),
        decreases devices@.len() - i,
    {
        if devices[i].kind() == kind && devices[i].available() {
            return Some(i);
        }
        i = i + 1;
    }
    assert forall|j: int| 0 <= j < devices@.len() implies !(devices@[j]@.2 == kind && devices@[j]@.3) by {
        assert(v[j] == devices@[j]@);
    }
    None
}

/// What opening one capture window for a frame gave.
#[derive(Clone, Debug, PartialEq, Eq)]
pub enum CaptureAttempt {
    /// The window produced a frame.
    Captured,
    /// The window or the capture stack is unavailable on this host.
    Unavailable(String),
    /// Capturing the window failed.
    Failed(String),
}

/// Which window a persistence check keeps.
#[derive(Clone, Debug, PartialEq, Eq)]
pub enum WindowSelection {
    /// The candidate at this position produced a frame.
    Selected(usize),
    /// There was no candidate.
    NoCandidates,
    /// Every candidate was unavailable; the check is skipped with this detail.
    Skip(String),
    /// No candidate produced a frame; the check fails with this detail.
    Fail(String),
}

/// The failure note of one attempt.
pub open spec fn spec_attempt_note(id: Seq<char>, attempt: CaptureAttempt) -> Seq<char> {
    match attempt {
        CaptureAttempt::Unavailable(e) => id + ": unavailable: "@ + e@,
        CaptureAttempt::Failed(e) => id + ": "@ + e@,
        CaptureAttempt::Captured => id,
    }
}

/// The failure notes of attempts `0..n`, joined with `; `.
pub open spec fn spec_notes(attempts: Seq<(Seq<char>, CaptureAttempt)>, n: int) -> Seq<char>
    decreases n,
{
    if n <= 0 {
        Seq::empty()
    } else if n == 1 {
        spec_attempt_note(attempts[0].0, attempts[0].1)
    } else {
        spec_notes(attempts, n - 1) + "; "@ + spec_attempt_note(attempts[n - 1].0, attempts[n - 1].1)
    }
}

/// Chooses the window a persistence check keeps from the attempts, in
/// order, until one produced a frame: that one; none without candidates;
/// a skip when every candidate was unavailable; a failure otherwise. The
/// detail lists each failed attempt.
pub fn select_window(attempts: &Vec<(String, CaptureAttempt)>) -> (selection: WindowSelection)
    ensures
        ({
            let v = attempts@.map_values(|a: (String, CaptureAttempt)| (a.0@, a.1));
            match selection {
                WindowSelection::Selected(i) => i < v.len() && v[i as int].1 == CaptureAttempt::Captured
                    && forall|j: int| 0 <= j < i ==> v[j].1 != CaptureAttempt::Captured,
                WindowSelection::NoCandidates => v.len() == 0,
                WindowSelection::Skip(detail) => {
                    &&& v.len() > 0
                    &&& forall|j: int| 0 <= j < v.len() ==> (#[trigger] v[j]).1 is Unavailable
                    &&& detail@ == "target persistence found no capturable window: "@ + spec_notes(v, v.len() as int)
                },
                WindowSelection::Fail(detail) => {
                    &&& v.len() > 0
                    &&& forall|j: int| 0 <= j < v.len() ==> (#[trigger] v[j]).1 != CaptureAttempt::Captured
                    &&& exists|j: int| 0 <= j < v.len() && (#[trigger] v[j]).1 is Failed
                    &&& detail@ == "target persistence found no capturable window: "@ + spec_notes(v, v.len() as int)
                },
            }
        }),
{
    let ghost v = attempts@.map_values(|a: (String, CaptureAttempt)| (a.0@, a.1));
    let mut notes: Vec<char> = Vec::new();
    let mut unavailable: usize = 0;
    let mut i: usize = 0;
    while i < attempts.len()
        invariant
            i <= attempts@.len(),
            v == attempts@.map_values(|a: (String, CaptureAttempt)| (a.0@, a.1)),
            notes@ == spec_notes(v, i as int),
            unavailable <= i,
            forall|j: int| 0 <= j < i ==> v[j].1 != CaptureAttempt::Captured,
            (unavailable == i) == (forall|j: int| 0 <= j < i ==> (#[trigger] v[j]).1 is Unavailable),
        decreases attempts@.len() - i,
    {
        let (id, attempt) = (&attempts[i].0, &attempts[i].1);
        assert(v[i as int] == (id@, *attempt));
        match attempt {
            CaptureAttempt::Captured => {
                return WindowSelection::Selected(i);
            },
            CaptureAttempt::Unavailable(error) => {
                if i > 0 {
                    push_str(&mut notes, "; ");
                }
                push_str(&mut notes, id.as_str());
                push_str(&mut notes, ": unavailable: ");
                push_str(&mut notes, error.as_str());
                unavailable = unavailable + 1;
            },
            CaptureAttempt::Failed(error) => {
                if i > 0 {
                    push_str(&mut notes, "; ");
                }
                push_str(&mut notes, id.as_str());
                push_str(&mut notes, ": ");
                push_str(&mut notes, error.as_str());
            },
        }
        proof {
            if i > 0 {
                assert(notes@ =~= spec_notes(v, i as int) + "; "@ + spec_attempt_note(v[i as int].0, v[i as int].1));
            } else {
                assert(notes@ =~= spec_attempt_note(v[0].0, v[0].1));
            }
        }
        i = i + 1;
    }
    if attempts.len() == 0 {
        return WindowSelection::NoCandidates;
    }
    let mut detail: Vec<char> = Vec::new();
    push_str(&mut detail, "target persistence found no capturable window: ");
    let ghost prefix = detail@;
    let mut k: usize = 0;
    while k < notes.len()
        invariant
            k <= notes@.len(),
            detail@ == prefix + notes@.take(k as int),
        decreases notes@.len() - k,
    {
        detail.push(notes[k]);
        k = k + 1;
        assert(detail@ =~= prefix + notes@.take(k as int));
    }
    assert(notes@.take(notes@.len() as int) =~= notes@);
    if unavailable == attempts.len() {
        WindowSelection::Skip(string_from_chars(detail))
    } else {
        proof {
            let j = choose|j: int| 0 <= j < v.len() && !((#[trigger] v[j]).1 is Unavailable);
            assert(v[j].1 is Failed);
        }
        WindowSelection::Fail(string_from_chars(detail))
    }
}

/// What the display catalog must satisfy: exactly one primary display and
/// no zero-sized display. On success, the number of displays left of or
/// above the desktop origin.
pub fn check_displays(displays: &Vec<WindowsDisplayInfo>) -> (result: Result<usize, String>)
    ensures
        ({
            let primaries = displays@.filter(|d: WindowsDisplayInfo| d.primary).len();
            if primaries != 1 {
                result matches Err(m) && m@ == "display discovery reported "@ + spec_decimal(primaries)
                    + " primary displays"@
            } else if exists|i: int| 0 <= i < displays@.len() && ((#[trigger] displays@[i]).width == 0
                || displays@[i].height == 0) {
                result matches Err(m) && m@ == "display discovery reported a zero-sized display"@
            } else {
                result == Ok::<usize, String>(
                    displays@.filter(|d: WindowsDisplayInfo| d.x < 0 || d.y < 0).len() as usize,
                )
            }
        }),
{
    let ghost primary = |d: WindowsDisplayInfo| d.primary;
    let ghost negative = |d: WindowsDisplayInfo| d.x < 0 || d.y < 0;
    let mut primaries: usize = 0;
    let mut negatives: usize = 0;
    let mut zero_sized = false;
    let mut i: usize = 0;
    while i < displays.len()
        invariant
            i <= displays@.len(),
            primary == (|d: WindowsDisplayInfo| d.primary),
            negative == (|d: WindowsDisplayInfo| d.x < 0 || d.y < 0),
            primaries == displays@.take(i as int).filter(primary).len(),
            negatives == displays@.take(i as int).filter(negative).len(),
            primaries <= i,
            negatives <= i,
            zero_sized == exists|j: int| 0 <= j < i && ((#[trigger] displays@[j]).width == 0
                || displays@[j].height == 0),
        decreases displays@.len() - i,
    {
        let d = &displays[i];
        proof {
            assert(displays@.take(i + 1) =~= displays@.take(i as int).push(displays@[i as int]));
            displays@.take(i as int).lemma_filter_push(displays@[i as int], primary);
            displays@.take(i as int).lemma_filter_push(displays@[i as int], negative);
        }
        if d.primary {
            primaries = primaries + 1;
        }
        if d.x < 0 || d.y < 0 {
            negatives = negatives + 1;
        }
        if d.width == 0 || d.height == 0 {
            zero_sized = true;
        }
        i = i + 1;
    }
    assert(displays@.take(displays@.len() as int) =~= displays@);
    if primaries != 1 {
        let mut out: Vec<char> = Vec::new();
        push_str(&mut out, "display discovery reported ");
        push_decimal(&mut out, primaries as u128);
        push_str(&mut out, " primary displays");
        return Err(string_from_chars(out));
    }
    if zero_sized {
        return Err("display discovery reported a zero-sized display".to_owned());
    }
    Ok(negatives)
}

/// The word for a device direction.
pub fn audio_kind_name(kind: AudioDeviceKind) -> (name: &'static str)
    ensures
        name@ == match kind {
            AudioDeviceKind::Input => "input"@,
            AudioDeviceKind::Output => "output"@,
        },
{
    match kind {
        AudioDeviceKind::Input => "input",
        AudioDeviceKind::Output => "output",
    }
}

/// The text of each ID.
pub open spec fn id_texts(ids: Seq<String>) -> Seq<Seq<char>> {
    ids.map_values(|id: String| id@)
}

/// Whether some ID occurs twice.
pub open spec fn has_duplicate(ids: Seq<Seq<char>>) -> bool {
    exists|i: int, j: int| 0 <= i < j < ids.len() && ids[i] == ids[j]
}

/// How many of the IDs of `first` also occur in `second`.
pub open spec fn shared_count(first: Seq<Seq<char>>, second: Seq<Seq<char>>) -> nat
    decreases first.len(),
{
    if first.len() == 0 {
        0
    } else {
        shared_count(first.drop_last(), second) + if second.contains(first.last()) {
            1nat
        } else {
            0nat
        }
    }
}

/// The verdict on the window IDs of two immediate discovery calls: no call
/// may report an ID twice, and when both report windows, some window must
/// keep its ID. Gives the number of shared IDs.
pub open spec fn spec_window_id_stability(first: Seq<Seq<char>>, second: Seq<Seq<char>>) -> Result<
    nat,
    Seq<char>,
> {
    if has_duplicate(first) || has_duplicate(second) {
        Err("window discovery returned duplicate stable IDs"@)
    } else if first.len() > 0 && second.len() > 0 && shared_count(first, second) == 0 {
        Err(
            "window IDs were not stable across immediate discovery calls; target persistence is unsafe"@,
        )
    } else {
        Ok(shared_count(first, second))
    }
}

fn contains_id(ids: &Vec<String>, id: &String) -> (found: bool)
    ensures
        found == id_texts(ids@).contains(id@),
{
    let mut i: usize = 0;
    while i < ids.len()
        invariant
            i <= ids@.len(),
            forall|k: int| 0 <= k < i ==> ids@[k]@ != id@,
        decreases ids@.len() - i,
    {
        if str_eq(ids[i].as_str(), id.as_str()) {
            assert(id_texts(ids@)[i as int] == id@);
            return true;
        }
        i = i + 1;
    }
    proof {
        if id_texts(ids@).contains(id@) {
            let k = choose|k: int| 0 <= k < id_texts(ids@).len() && id_texts(ids@)[k] == id@;
            assert(ids@[k]@ == id@);
        }
    }
    false
}

fn has_duplicate_id(ids: &Vec<String>) -> (found: bool)
    ensures
        found == has_duplicate(id_texts(ids@)),
{
    let ghost texts = id_texts(ids@);
    let mut j: usize = 0;
    while j < ids.len()
        invariant
            j <= ids@.len(),
            texts == id_texts(ids@),
            forall|a: int, b: int| 0 <= a < b < j ==> texts[a] != texts[b],
        decreases ids@.len() - j,
    {
        let mut i: usize = 0;
        while i < j
            invariant
                i <= j < ids@.len(),
                texts == id_texts(ids@),
                forall|a: int| 0 <= a < i ==> texts[a] != texts[j as int],
            decreases j - i,
        {
            if str_eq(ids[i].as_str(), ids[j].as_str()) {
                assert(texts[i as int] == texts[j as int]);
                return true;
            }
            i = i + 1;
        }
        j = j + 1;
    }
    false
}

/// Judges the window IDs of two immediate discovery calls: a duplicate ID
/// in either fails the check, as does no shared ID when both report
/// windows; otherwise the number of shared IDs is returned.
pub fn window_id_stability(first: &Vec<String>, second: &Vec<String>) -> (result: Result<usize, String>)
    ensures
        match spec_window_id_stability(id_texts(first@), id_texts(second@)) {
            Ok(shared) => result matches Ok(n) && n == shared,
            Err(message) => result matches Err(m) && m@ == message,
        },
{
    if has_duplicate_id(first) || has_duplicate_id(second) {
        return Err("window discovery returned duplicate stable IDs".to_owned());
    }
    let ghost a = id_texts(first@);
    let ghost b = id_texts(second@);
    let mut shared: usize = 0;
    let mut i: usize = 0;
    while i < first.len()
        invariant
            i <= first@.len(),
            a == id_texts(first@),
            b == id_texts(second@),
            shared == shared_count(a.take(i as int), b),
            shared <= i,
        decreases first@.len() - i,
    {
        let found = contains_id(second, &first[i]);
        proof {
            assert(a.take(i + 1).drop_last() =~= a.take(i as int));
            assert(a.take(i + 1).last() == first@[i as int]@);
        }
        if found {
            shared = shared + 1;
        }
        i = i + 1;
    }
    assert(a.take(first@.len() as int) =~= a);
    if first.len() > 0 && second.len() > 0 && shared == 0 {
        return Err(
            "window IDs were not stable across immediate discovery calls; target persistence is unsafe".to_owned(),
        );
    }
    Ok(shared)
}

} // verus!
