//! The Windows capture helper's line-oriented replies.
//!
//! A discovery reply is a header line, one version line and one record per
//! display or window, tab-separated:
//!
//! ```text
//! OBSRWIN1\tDISCOVERY\t1
//! OBSRWIN1\tVERSION\t<version>
//! screen\t<id>\t<name>\t<x>\t<y>\t<width>\t<height>\t<0|1>
//! window\t<id>\t<name>
//! ```
//!
//! Blank lines are ignored. The parser rejects every malformed reply with a
//! typed error, bounds the number of records, requires a helper of the same
//! major version, and returns the devices and displays sorted by id.
use vstd::prelude::*;
use vstd::string::StringSliceAdditionalSpecFns;

use crate::capture::{protocol_error, CaptureError, CaptureErrorView, WINDOWS_HELPER_PROTOCOL, WINDOWS_HELPER_VERSION};
use crate::text::{
    chars_lt, chars_of, lemma_lex_order, lemma_lex_transitive, lex_lt, line_ranges, parse_int,
    push_int_error_message, push_str, range_contains, range_eq, range_starts_with, range_string,
    spec_int_error_message, spec_is_blank, spec_is_whitespace, spec_lines, spec_parse_int, spec_split,
    spec_starts_with, split_ranges, string_from_chars, IntParseError, is_whitespace,
};

verus! {

/// The most display and window records that a discovery reply may hold.
pub const MAX_DISCOVERY_RECORDS: usize = 512;

/// The kind of a discovered capture target.
#[derive(Clone, Copy, Debug, PartialEq, Eq, Structural)]
pub enum WindowsCaptureKind {
    Screen,
    Window,
}

/// A capture target returned by discovery.
#[derive(Debug, PartialEq, Eq)]
pub struct WindowsCaptureDevice {
    /// Stable capture id, for example `wgc-window-1`.
    pub id: String,
    /// Friendly name.
    pub name: String,
    /// Whether the target is a display or a window.
    pub kind: WindowsCaptureKind,
}

/// A display returned by discovery.
#[derive(Debug, PartialEq, Eq)]
pub struct WindowsDisplayInfo {
    /// Stable display capture id, for example `wgc-screen-1`.
    pub id: String,
    /// Friendly display name.
    pub name: String,
    /// Desktop-space left coordinate.
    pub x: i32,
    /// Desktop-space top coordinate.
    pub y: i32,
    /// Display width in pixels.
    pub width: u32,
    /// Display height in pixels.
    pub height: u32,
    /// Whether Windows reports this as the primary display.
    pub primary: bool,
}

/// The mathematical form of a [`WindowsCaptureDevice`].
pub struct DeviceView {
    pub id: Seq<char>,
    pub name: Seq<char>,
    pub kind: WindowsCaptureKind,
}

/// The mathematical form of a [`WindowsDisplayInfo`].
pub struct DisplayView {
    pub id: Seq<char>,
    pub name: Seq<char>,
    pub x: i32,
    pub y: i32,
    pub width: u32,
    pub height: u32,
    pub primary: bool,
}

impl View for WindowsCaptureDevice {
    type V = DeviceView;

    open spec fn view(&self) -> DeviceView {
        DeviceView { id: self.id@, name: self.name@, kind: self.kind }
    }
}

impl View for WindowsDisplayInfo {
    type V = DisplayView;

    open spec fn view(&self) -> DisplayView {
        DisplayView {
            id: self.id@,
            name: self.name@,
            x: self.x,
            y: self.y,
            width: self.width,
            height: self.height,
            primary: self.primary,
        }
    }
}

impl Clone for WindowsCaptureDevice {
    fn clone(&self) -> (copy: Self)
        ensures
            copy@ == self@,
    {
        WindowsCaptureDevice { id: self.id.clone(), name: self.name.clone(), kind: self.kind }
    }
}

impl Clone for WindowsDisplayInfo {
    fn clone(&self) -> (copy: Self)
        ensures
            copy@ == self@,
    {
        WindowsDisplayInfo {
            id: self.id.clone(),
            name: self.name.clone(),
            x: self.x,
            y: self.y,
            width: self.width,
            height: self.height,
            primary: self.primary,
        }
    }
}

/// A protocol error's view.
pub open spec fn protocol(message: Seq<char>) -> CaptureErrorView {
    CaptureErrorView::Protocol(message)
}

/// A discovery field: non-blank and free of line breaks.
pub open spec fn spec_field(value: Seq<char>) -> Result<Seq<char>, CaptureErrorView> {
    if spec_is_blank(value) || value.contains('\r') || value.contains('\n') {
        Err(protocol("Windows discovery field is empty or contains a newline"@))
    } else {
        Ok(value)
    }
}

/// A numeric discovery field in `[min, max]`, named `label` in the error.
pub open spec fn spec_number_field(value: Seq<char>, label: Seq<char>, min: int, max: int) -> Result<
    int,
    CaptureErrorView,
> {
    match spec_parse_int(value, min, max) {
        Ok(v) => Ok(v),
        Err(e) => Err(
            protocol("invalid "@ + label + " in Windows discovery: "@ + spec_int_error_message(e)),
        ),
    }
}

/// What the discovery parser has read so far.
pub struct DiscoveryProgress {
    pub devices: Seq<DeviceView>,
    pub displays: Seq<DisplayView>,
    pub version: Option<Seq<char>>,
}

/// A `screen` record (eight fields) read onto `progress`.
pub open spec fn spec_screen_record(progress: DiscoveryProgress, f: Seq<Seq<char>>) -> Result<
    DiscoveryProgress,
    CaptureErrorView,
> {
    match spec_field(f[1]) {
        Err(e) => Err(e),
        Ok(id) => if !spec_starts_with(id, "wgc-screen-"@) {
            Err(protocol("invalid Windows display ID "@ + id))
        } else {
            match spec_number_field(f[5], "display width"@, 0, u32::MAX as int) {
                Err(e) => Err(e),
                Ok(width) => match spec_number_field(f[6], "display height"@, 0, u32::MAX as int) {
                    Err(e) => Err(e),
                    Ok(height) => if width == 0 || height == 0 {
                        Err(protocol("Windows display dimensions must be non-zero"@))
                    } else if f[7] != "0"@ && f[7] != "1"@ {
                        Err(protocol("Windows display primary flag must be 0 or 1"@))
                    } else {
                        match spec_field(f[2]) {
                            Err(e) => Err(e),
                            Ok(name) => match spec_number_field(
                                f[3],
                                "display x"@,
                                i32::MIN as int,
                                i32::MAX as int,
                            ) {
                                Err(e) => Err(e),
                                Ok(x) => match spec_number_field(
                                    f[4],
                                    "display y"@,
                                    i32::MIN as int,
                                    i32::MAX as int,
                                ) {
                                    Err(e) => Err(e),
                                    Ok(y) => Ok(
                                        DiscoveryProgress {
                                            devices: progress.devices.push(
                                                DeviceView {
                                                    id,
                                                    name,
                                                    kind: WindowsCaptureKind::Screen,
                                                },
                                            ),
                                            displays: progress.displays.push(
                                                DisplayView {
                                                    id,
                                                    name,
                                                    x: x as i32,
                                                    y: y as i32,
                                                    width: width as u32,
                                                    height: height as u32,
                                                    primary: f[7] == "1"@,
                                                },
                                            ),
                                            version: progress.version,
                                        },
                                    ),
                                },
                            },
                        }
                    },
                },
            }
        },
    }
}

/// A `window` record (three fields) read onto `progress`.
pub open spec fn spec_window_record(progress: DiscoveryProgress, f: Seq<Seq<char>>) -> Result<
    DiscoveryProgress,
    CaptureErrorView,
> {
    match spec_field(f[1]) {
        Err(e) => Err(e),
        Ok(id) => if !spec_starts_with(id, "wgc-window-"@) {
            Err(protocol("invalid Windows window ID "@ + id))
        } else {
            match spec_field(f[2]) {
                Err(e) => Err(e),
                Ok(name) => Ok(
                    DiscoveryProgress {
                        devices: progress.devices.push(
                            DeviceView { id, name, kind: WindowsCaptureKind::Window },
                        ),
                        displays: progress.displays,
                        version: progress.version,
                    },
                ),
            }
        },
    }
}

/// One line after the header read onto `progress`; `bytes` is the size of
/// the whole reply.
pub open spec fn spec_discovery_line(progress: DiscoveryProgress, line: Seq<char>, bytes: u64) -> Result<
    DiscoveryProgress,
    CaptureErrorView,
> {
    if spec_is_blank(line) {
        Ok(progress)
    } else if spec_starts_with(line, "OBSRWIN1\tVERSION\t"@) {
        if progress.version is Some {
            Err(protocol("Windows discovery contains duplicate version lines"@))
        } else {
            let f = spec_split(line, '\t');
            if f.len() != 3 || f[0] != "OBSRWIN1"@ || f[1] != "VERSION"@ {
                Err(protocol("Windows discovery version line is invalid"@))
            } else {
                match spec_field(f[2]) {
                    Err(e) => Err(e),
                    Ok(version) => Ok(
                        DiscoveryProgress {
                            devices: progress.devices,
                            displays: progress.displays,
                            version: Some(version),
                        },
                    ),
                }
            }
        }
    } else if progress.devices.len() >= MAX_DISCOVERY_RECORDS {
        Err(CaptureErrorView::ReplyTooLarge(bytes))
    } else {
        let f = spec_split(line, '\t');
        if f[0] == "screen"@ && f.len() == 8 {
            spec_screen_record(progress, f)
        } else if f[0] == "window"@ && f.len() == 3 {
            spec_window_record(progress, f)
        } else {
            Err(protocol("invalid Windows discovery record: "@ + line))
        }
    }
}

/// The lines after the header read in order onto `progress`, stopping at
/// the first error.
pub open spec fn spec_discovery_lines(
    progress: DiscoveryProgress,
    lines: Seq<Seq<char>>,
    bytes: u64,
) -> Result<DiscoveryProgress, CaptureErrorView>
    decreases lines.len(),
{
    if lines.len() == 0 {
        Ok(progress)
    } else {
        match spec_discovery_line(progress, lines[0], bytes) {
            Err(e) => Err(e),
            Ok(next) => spec_discovery_lines(next, lines.skip(1), bytes),
        }
    }
}

/// Whether a helper version has the major version that this host speaks:
/// the text before the first `.` is the same.
pub open spec fn spec_version_compatible(version: Seq<char>) -> bool {
    spec_split(version, '.')[0] == spec_split(WINDOWS_HELPER_VERSION@, '.')[0]
}

/// The error for an incompatible helper version.
pub open spec fn incompatible_message(version: Seq<char>) -> Seq<char> {
    "Windows helper version "@ + version + " is incompatible with "@ + WINDOWS_HELPER_VERSION@
}

/// Whether two records share an id.
pub open spec fn has_duplicate_id(ids: Seq<Seq<char>>) -> bool {
    exists|i: int, j: int| 0 <= i < j < ids.len() && ids[i] == ids[j]
}

/// Whether ids strictly increase.
pub open spec fn strictly_sorted(ids: Seq<Seq<char>>) -> bool {
    forall|i: int, j: int| 0 <= i < j < ids.len() ==> lex_lt(ids[i], ids[j])
}

/// What a whole discovery reply reads to, before sorting: the records and
/// version, or the first error.
pub open spec fn spec_discovery(output: Seq<char>, bytes: u64) -> Result<
    DiscoveryProgress,
    CaptureErrorView,
> {
    let lines = spec_lines(output);
    if lines.len() == 0 || lines[0] != "OBSRWIN1\tDISCOVERY\t1"@ {
        Err(protocol("Windows discovery header is invalid"@))
    } else {
        match spec_discovery_lines(
            DiscoveryProgress { devices: seq![], displays: seq![], version: None },
            lines.skip(1),
            bytes,
        ) {
            Err(e) => Err(e),
            Ok(progress) => match progress.version {
                None => Err(protocol("Windows discovery version line is missing"@)),
                Some(version) => if !spec_version_compatible(version) {
                    Err(protocol(incompatible_message(version)))
                } else if has_duplicate_id(progress.devices.map_values(|d: DeviceView| d.id)) {
                    Err(protocol("Windows discovery contains duplicate device IDs"@))
                } else if has_duplicate_id(progress.displays.map_values(|d: DisplayView| d.id)) {
                    Err(protocol("Windows discovery contains duplicate display IDs"@))
                } else {
                    Ok(progress)
                },
            },
        }
    }
}

/// Whether `sorted` holds exactly the items of `items` (which have distinct
/// ids), in increasing id order.
pub open spec fn sorted_by_id<V>(sorted: Seq<V>, items: Seq<V>, id: spec_fn(V) -> Seq<char>) -> bool {
    &&& sorted.len() == items.len()
    &&& strictly_sorted(sorted.map_values(id))
    &&& forall|i: int| 0 <= i < sorted.len() ==> items.contains(#[trigger] sorted[i])
    &&& forall|j: int| 0 <= j < items.len() ==> sorted.contains(#[trigger] items[j])
}

/// Whether a character range is blank.
fn range_is_blank(s: &[char], from: usize, to: usize) -> (blank: bool)
    requires
        from <= to <= s@.len(),
    ensures
        blank == spec_is_blank(s@.subrange(from as int, to as int)),
{
    let mut i = from;
    while i < to
        invariant
            from <= i <= to <= s@.len(),
            forall|j: int| from <= j < i ==> spec_is_whitespace(#[trigger] s@[j]),
        decreases to - i,
    {
        if !is_whitespace(s[i]) {
            assert(!spec_is_whitespace(s@.subrange(from as int, to as int)[i - from]));
            return false;
        }
        i = i + 1;
    }
    assert forall|j: int| 0 <= j < to - from implies spec_is_whitespace(
        #[trigger] s@.subrange(from as int, to as int)[j],
    ) by {
        assert(s@.subrange(from as int, to as int)[j] == s@[from + j]);
    }
    true
}

/// Reads a discovery field from `s[from..to]`.
pub fn field(s: &[char], from: usize, to: usize) -> (result: Result<String, CaptureError>)
    requires
        from <= to <= s@.len(),
    ensures
        match spec_field(s@.subrange(from as int, to as int)) {
            Ok(v) => result matches Ok(text) && text@ == v,
            Err(e) => result matches Err(error) && error@ == e,
        },
{
    if range_is_blank(s, from, to) || range_contains(s, from, to, '\r') || range_contains(
        s,
        from,
        to,
        '\n',
    ) {
        return Err(protocol_error("Windows discovery field is empty or contains a newline"));
    }
    Ok(range_string(s, from, to))
}

/// Reads a numeric discovery field in `[min, max]` from `s[from..to]`.
fn number_field(s: &[char], from: usize, to: usize, label: &str, min: i64, max: i64) -> (result:
    Result<i64, CaptureError>)
    requires
        from <= to <= s@.len(),
        -0x8000_0000_0000 <= min <= 0 <= max <= 0x8000_0000_0000,
    ensures
        match spec_number_field(s@.subrange(from as int, to as int), label@, min as int, max as int) {
            Ok(v) => result == Ok::<i64, CaptureError>(v as i64) && min <= v <= max,
            Err(e) => result matches Err(error) && error@ == e,
        },
{
    proof {
        crate::text::lemma_parse_int_bounds(
            s@.subrange(from as int, to as int),
            min as int,
            max as int,
        );
    }
    match parse_int(s, from, to, min, max) {
        Ok(v) => Ok(v),
        Err(e) => {
            let mut out: Vec<char> = Vec::new();
            push_str(&mut out, "invalid ");
            push_str(&mut out, label);
            push_str(&mut out, " in Windows discovery: ");
            push_int_error_message(&mut out, e);
            assert(out@ =~= "invalid "@ + label@ + " in Windows discovery: "@
                + spec_int_error_message(e));
            Err(CaptureError::Protocol { message: string_from_chars(out) })
        },
    }
}

/// The parser's records and version so far.
pub struct DiscoveryState {
    pub devices: Vec<WindowsCaptureDevice>,
    pub displays: Vec<WindowsDisplayInfo>,
    pub version: Option<String>,
}

/// The mathematical form of a [`DiscoveryState`].
pub open spec fn state_view(state: &DiscoveryState) -> DiscoveryProgress {
    DiscoveryProgress {
        devices: state.devices@.map_values(|d: WindowsCaptureDevice| d@),
        displays: state.displays@.map_values(|d: WindowsDisplayInfo| d@),
        version: match state.version {
            Some(v) => Some(v@),
            None => None,
        },
    }
}

/// Reads one line `s[from..to]` of a discovery reply onto `state`.
#[verifier::spinoff_prover]
fn discovery_line(s: &[char], from: usize, to: usize, state: &mut DiscoveryState, bytes: u64) -> (result:
    Result<(), CaptureError>)
    requires
        from <= to <= s@.len(),
    ensures
        match spec_discovery_line(state_view(old(state)), s@.subrange(from as int, to as int), bytes) {
            Ok(next) => result is Ok && state_view(final(state)) == next,
            Err(e) => result matches Err(error) && error@ == e,
        },
{
    let ghost line = s@.subrange(from as int, to as int);
    if range_is_blank(s, from, to) {
        return Ok(());
    }
    if range_starts_with(s, from, to, "OBSRWIN1\tVERSION\t") {
        if state.version.is_some() {
            return Err(protocol_error("Windows discovery contains duplicate version lines"));
        }
        let f = split_ranges(s, from, to, '\t');
        if f.len() != 3 || !range_eq(s, f[0].0, f[0].1, "OBSRWIN1") || !range_eq(
            s,
            f[1].0,
            f[1].1,
            "VERSION",
        ) {
            return Err(protocol_error("Windows discovery version line is invalid"));
        }
        let version = match field(s, f[2].0, f[2].1) {
            Ok(v) => v,
            Err(e) => {
                return Err(e);
            },
        };
        state.version = Some(version);
        return Ok(());
    }
    if state.devices.len() >= MAX_DISCOVERY_RECORDS {
        return Err(CaptureError::ReplyTooLarge { bytes });
    }
    let f = split_ranges(s, from, to, '\t');
    assert(f@.len() >= 1) by {
        crate::text::lemma_first_index_of(line, '\t');
    }
    if range_eq(s, f[0].0, f[0].1, "screen") && f.len() == 8 {
        let id = match field(s, f[1].0, f[1].1) {
            Ok(v) => v,
            Err(e) => {
                return Err(e);
            },
        };
        let id_chars = chars_of(id.as_str());
        if !range_starts_with(&id_chars, 0, id_chars.len(), "wgc-screen-") {
            proof {
                assert(id_chars@.subrange(0, id_chars@.len() as int) =~= id_chars@);
            }
            let mut out: Vec<char> = Vec::new();
            push_str(&mut out, "invalid Windows display ID ");
            push_str(&mut out, id.as_str());
            return Err(CaptureError::Protocol { message: string_from_chars(out) });
        }
        proof {
            assert(id_chars@.subrange(0, id_chars@.len() as int) =~= id_chars@);
        }
        let width = match number_field(s, f[5].0, f[5].1, "display width", 0, 0xffff_ffff) {
            Ok(v) => v,
            Err(e) => {
                return Err(e);
            },
        };
        let height = match number_field(s, f[6].0, f[6].1, "display height", 0, 0xffff_ffff) {
            Ok(v) => v,
            Err(e) => {
                return Err(e);
            },
        };
        if width == 0 || height == 0 {
            return Err(protocol_error("Windows display dimensions must be non-zero"));
        }
        let primary = if range_eq(s, f[7].0, f[7].1, "0") {
            false
        } else if range_eq(s, f[7].0, f[7].1, "1") {
            true
        } else {
            return Err(protocol_error("Windows display primary flag must be 0 or 1"));
        };
        let name = match field(s, f[2].0, f[2].1) {
            Ok(v) => v,
            Err(e) => {
                return Err(e);
            },
        };
        let x = match number_field(s, f[3].0, f[3].1, "display x", -0x8000_0000, 0x7fff_ffff) {
            Ok(v) => v,
            Err(e) => {
                return Err(e);
            },
        };
        let y = match number_field(s, f[4].0, f[4].1, "display y", -0x8000_0000, 0x7fff_ffff) {
            Ok(v) => v,
            Err(e) => {
                return Err(e);
            },
        };
        let ghost before = state_view(state);
        let display = WindowsDisplayInfo {
            id: id.clone(),
            name: name.clone(),
            x: x as i32,
            y: y as i32,
            width: width as u32,
            height: height as u32,
            primary,
        };
        state.devices.push(WindowsCaptureDevice { id, name, kind: WindowsCaptureKind::Screen });
        state.displays.push(display);
        proof {
            assert(state_view(state).devices =~= before.devices.push(state.devices@.last()@));
            assert(state_view(state).displays =~= before.displays.push(state.displays@.last()@));
            reveal_strlit("0");
            reveal_strlit("1");
            assert("0"@[0] != "1"@[0]);
            assert("0"@ != "1"@);
        }
        return Ok(());
    }
    if range_eq(s, f[0].0, f[0].1, "window") && f.len() == 3 {
        let id = match field(s, f[1].0, f[1].1) {
            Ok(v) => v,
            Err(e) => {
                return Err(e);
            },
        };
        let id_chars = chars_of(id.as_str());
        proof {
            assert(id_chars@.subrange(0, id_chars@.len() as int) =~= id_chars@);
        }
        if !range_starts_with(&id_chars, 0, id_chars.len(), "wgc-window-") {
            let mut out: Vec<char> = Vec::new();
            push_str(&mut out, "invalid Windows window ID ");
            push_str(&mut out, id.as_str());
            return Err(CaptureError::Protocol { message: string_from_chars(out) });
        }
        let name = match field(s, f[2].0, f[2].1) {
            Ok(v) => v,
            Err(e) => {
                return Err(e);
            },
        };
        let ghost before = state_view(state);
        state.devices.push(WindowsCaptureDevice { id, name, kind: WindowsCaptureKind::Window });
        proof {
            assert(state_view(state).devices =~= before.devices.push(state.devices@.last()@));
            assert(state_view(state).displays =~= before.displays);
        }
        return Ok(());
    }
    let mut out: Vec<char> = Vec::new();
    push_str(&mut out, "invalid Windows discovery record: ");
    let text = range_string(s, from, to);
    push_str(&mut out, text.as_str());
    Err(CaptureError::Protocol { message: string_from_chars(out) })
}

/// Checks that a helper version has the major version that this host
/// speaks.
pub fn validate_version_compatibility(version: &str) -> (result: Result<(), CaptureError>)
    ensures
        spec_version_compatible(version@) ==> result is Ok,
        !spec_version_compatible(version@) ==> (result matches Err(error) && error@ == protocol(
            incompatible_message(version@),
        )),
{
    let expected = chars_of(WINDOWS_HELPER_VERSION);
    let actual = chars_of(version);
    let expected_parts = split_ranges(&expected, 0, expected.len(), '.');
    let actual_parts = split_ranges(&actual, 0, actual.len(), '.');
    proof {
        assert(expected@.subrange(0, expected@.len() as int) =~= expected@);
        assert(actual@.subrange(0, actual@.len() as int) =~= actual@);
        crate::text::lemma_first_index_of(expected@, '.');
        crate::text::lemma_first_index_of(actual@, '.');
    }
    let (ea, eb) = expected_parts[0];
    let (aa, ab) = actual_parts[0];
    let expected_major = crate::text::range_chars(&expected, ea, eb);
    let actual_major = crate::text::range_chars(&actual, aa, ab);
    let same = crate::text::chars_eq(expected_major.as_slice(), actual_major.as_slice());
    if !same {
        let mut out: Vec<char> = Vec::new();
        push_str(&mut out, "Windows helper version ");
        push_str(&mut out, version);
        push_str(&mut out, " is incompatible with ");
        push_str(&mut out, WINDOWS_HELPER_VERSION);
        assert(out@ =~= incompatible_message(version@));
        return Err(CaptureError::Protocol { message: string_from_chars(out) });
    }
    Ok(())
}

/// Whether every index below `n` occurs in `order`.
pub open spec fn covers(order: Seq<usize>, n: int) -> bool {
    forall|j: usize| j < n ==> #[trigger] order.contains(j)
}

/// Orders the indices of `keys` by key.
///
/// Returns `None` when two keys are equal; otherwise every index once, in
/// increasing key order.
pub fn sorted_order(keys: &Vec<Vec<char>>) -> (order: Option<Vec<usize>>)
    ensures
        match order {
            None => has_duplicate_id(keys@.map_values(|k: Vec<char>| k@)),
            Some(order) => {
                &&& !has_duplicate_id(keys@.map_values(|k: Vec<char>| k@))
                &&& order@.len() == keys@.len()
                &&& forall|i: int| 0 <= i < order@.len() ==> #[trigger] order@[i] < keys@.len()
                &&& forall|i: int, j: int|
                    0 <= i < j < order@.len() ==> lex_lt(
                        keys@[order@[i] as int]@,
                        keys@[order@[j] as int]@,
                    )
                &&& covers(order@, keys@.len() as int)
            },
        },
{
    let ghost ids = keys@.map_values(|k: Vec<char>| k@);
    let mut order: Vec<usize> = Vec::new();
    let mut idx: usize = 0;
    while idx < keys.len()
        invariant
            idx <= keys@.len(),
            ids == keys@.map_values(|k: Vec<char>| k@),
            order@.len() == idx,
            forall|i: int| 0 <= i < order@.len() ==> #[trigger] order@[i] < idx,
            forall|i: int, j: int|
                0 <= i < j < order@.len() ==> lex_lt(ids[order@[i] as int], ids[order@[j] as int]),
            covers(order@, idx as int),
            forall|a: int, b: int| 0 <= a < b < idx ==> ids[a] != ids[b],
        decreases keys@.len() - idx,
    {
        let key = &keys[idx];
        assert(ids[idx as int] == key@);
        let mut p: usize = 0;
        while p < order.len() && chars_lt(keys[order[p]].as_slice(), key.as_slice())
            invariant
                p <= order@.len(),
                idx < keys@.len(),
                ids == keys@.map_values(|k: Vec<char>| k@),
                key@ == ids[idx as int],
                forall|i: int| 0 <= i < order@.len() ==> #[trigger] order@[i] < idx,
                forall|q: int| 0 <= q < p ==> lex_lt(ids[order@[q] as int], ids[idx as int]),
            decreases order@.len() - p,
        {
            p = p + 1;
        }
        if p < order.len() && crate::text::chars_eq(keys[order[p]].as_slice(), key.as_slice()) {
            proof {
                let j = order@[p as int] as int;
                assert(ids[j] == ids[idx as int]);
                assert(has_duplicate_id(ids));
            }
            return None;
        }
        proof {
            if p < order@.len() {
                let j = order@[p as int] as int;
                lemma_lex_order(ids[j], ids[idx as int]);
                assert(lex_lt(ids[idx as int], ids[j]));
                assert forall|q: int| p < q < order@.len() implies lex_lt(
                    ids[idx as int],
                    ids[order@[q] as int],
                ) by {
                    lemma_lex_transitive(ids[idx as int], ids[j], ids[order@[q] as int]);
                }
            }
            assert forall|a: int| 0 <= a < idx implies ids[a] != ids[idx as int] by {
                assert(order@.contains(a as usize));
                let q = choose|q: int| 0 <= q < order@.len() && order@[q] == a as usize;
                if q < p {
                    lemma_lex_order(ids[a], ids[idx as int]);
                } else {
                    let j = order@[p as int] as int;
                    if q > p {
                        lemma_lex_transitive(ids[idx as int], ids[j], ids[a]);
                    }
                    lemma_lex_order(ids[idx as int], ids[a]);
                }
            }
        }
        let ghost before = order@;
        order.insert(p, idx);
        proof {
            assert forall|i: int, j: int| 0 <= i < j < order@.len() implies lex_lt(
                ids[order@[i] as int],
                ids[order@[j] as int],
            ) by {
                if i < p && j == p {
                } else if i < p && j > p {
                    assert(order@[j] == before[j - 1]);
                } else if i == p && j > p {
                    assert(order@[j] == before[j - 1]);
                } else if i > p {
                    assert(order@[i] == before[i - 1]);
                    assert(order@[j] == before[j - 1]);
                }
            }
            assert forall|j: usize| j < idx + 1 implies #[trigger] order@.contains(j) by {
                if j == idx {
                    assert(order@[p as int] == idx);
                } else {
                    assert(before.contains(j));
                    let q = choose|q: int| 0 <= q < before.len() && before[q] == j;
                    if q < p {
                        assert(order@[q] == j);
                    } else {
                        assert(order@[q + 1] == j);
                    }
                }
            }
            assert forall|i: int| 0 <= i < order@.len() implies #[trigger] order@[i] < idx + 1 by {
                if i < p {
                    assert(order@[i] == before[i]);
                } else if i > p {
                    assert(order@[i] == before[i - 1]);
                }
            }
        }
        idx = idx + 1;
    }
    proof {
        assert forall|i: int, j: int| 0 <= i < j < ids.len() implies ids[i] != ids[j] by {}
        assert forall|i: int, j: int| 0 <= i < j < order@.len() implies lex_lt(
            keys@[order@[i] as int]@,
            keys@[order@[j] as int]@,
        ) by {
            assert(ids[order@[i] as int] == keys@[order@[i] as int]@);
            assert(ids[order@[j] as int] == keys@[order@[j] as int]@);
        }
    }
    Some(order)
}

/// The id keys of discovered devices, in order.
fn device_keys(devices: &Vec<WindowsCaptureDevice>) -> (keys: Vec<Vec<char>>)
    ensures
        keys@.map_values(|k: Vec<char>| k@) == devices@.map_values(|d: WindowsCaptureDevice| d@).map_values(
            |d: DeviceView| d.id,
        ),
{
    let mut keys: Vec<Vec<char>> = Vec::new();
    let mut i: usize = 0;
    while i < devices.len()
        invariant
            i <= devices@.len(),
            keys@.len() == i,
            forall|j: int| 0 <= j < i ==> (#[trigger] keys@[j])@ == devices@[j].id@,
        decreases devices@.len() - i,
    {
        keys.push(chars_of(devices[i].id.as_str()));
        i = i + 1;
    }
    assert(keys@.map_values(|k: Vec<char>| k@) =~= devices@.map_values(|d: WindowsCaptureDevice| d@).map_values(
        |d: DeviceView| d.id,
    ));
    keys
}

/// The id keys of discovered displays, in order.
fn display_keys(displays: &Vec<WindowsDisplayInfo>) -> (keys: Vec<Vec<char>>)
    ensures
        keys@.map_values(|k: Vec<char>| k@) == displays@.map_values(|d: WindowsDisplayInfo| d@).map_values(
            |d: DisplayView| d.id,
        ),
{
    let mut keys: Vec<Vec<char>> = Vec::new();
    let mut i: usize = 0;
    while i < displays.len()
        invariant
            i <= displays@.len(),
            keys@.len() == i,
            forall|j: int| 0 <= j < i ==> (#[trigger] keys@[j])@ == displays@[j].id@,
        decreases displays@.len() - i,
    {
        keys.push(chars_of(displays[i].id.as_str()));
        i = i + 1;
    }
    assert(keys@.map_values(|k: Vec<char>| k@) =~= displays@.map_values(|d: WindowsDisplayInfo| d@).map_values(
        |d: DisplayView| d.id,
    ));
    keys
}

/// Copies devices in the given order.
fn devices_in_order(devices: &Vec<WindowsCaptureDevice>, order: &Vec<usize>) -> (out: Vec<
    WindowsCaptureDevice,
>)
    requires
        forall|i: int| 0 <= i < order@.len() ==> #[trigger] order@[i] < devices@.len(),
    ensures
        out@.len() == order@.len(),
        forall|i: int| 0 <= i < order@.len() ==> (#[trigger] out@[i])@ == devices@[order@[i] as int]@,
{
    let mut out: Vec<WindowsCaptureDevice> = Vec::new();
    let mut i: usize = 0;
    while i < order.len()
        invariant
            i <= order@.len(),
            forall|k: int| 0 <= k < order@.len() ==> #[trigger] order@[k] < devices@.len(),
            out@.len() == i,
            forall|k: int| 0 <= k < i ==> (#[trigger] out@[k])@ == devices@[order@[k] as int]@,
        decreases order@.len() - i,
    {
        out.push(devices[order[i]].clone());
        i = i + 1;
    }
    out
}

/// Copies displays in the given order.
fn displays_in_order(displays: &Vec<WindowsDisplayInfo>, order: &Vec<usize>) -> (out: Vec<
    WindowsDisplayInfo,
>)
    requires
        forall|i: int| 0 <= i < order@.len() ==> #[trigger] order@[i] < displays@.len(),
    ensures
        out@.len() == order@.len(),
        forall|i: int| 0 <= i < order@.len() ==> (#[trigger] out@[i])@ == displays@[order@[i] as int]@,
{
    let mut out: Vec<WindowsDisplayInfo> = Vec::new();
    let mut i: usize = 0;
    while i < order.len()
        invariant
            i <= order@.len(),
            forall|k: int| 0 <= k < order@.len() ==> #[trigger] order@[k] < displays@.len(),
            out@.len() == i,
            forall|k: int| 0 <= k < i ==> (#[trigger] out@[k])@ == displays@[order@[k] as int]@,
        decreases order@.len() - i,
    {
        out.push(displays[order[i]].clone());
        i = i + 1;
    }
    out
}

/// Items copied in an order that sorts them by id are those items sorted
/// by id.
proof fn lemma_ordered_copy<V>(out: Seq<V>, items: Seq<V>, order: Seq<usize>, id: spec_fn(V) -> Seq<char>)
    requires
        out.len() == order.len() == items.len(),
        items.len() <= usize::MAX,
        forall|i: int| 0 <= i < order.len() ==> #[trigger] order[i] < items.len(),
        forall|i: int| 0 <= i < order.len() ==> #[trigger] out[i] == items[order[i] as int],
        forall|i: int, j: int|
            0 <= i < j < order.len() ==> lex_lt(
                items.map_values(id)[order[i] as int],
                items.map_values(id)[order[j] as int],
            ),
        covers(order, items.len() as int),
    ensures
        sorted_by_id(out, items, id),
{
    assert forall|i: int| 0 <= i < out.len() implies items.contains(#[trigger] out[i]) by {
        assert(items[order[i] as int] == out[i]);
    }
    assert forall|j: int| 0 <= j < items.len() implies out.contains(#[trigger] items[j]) by {
        assert(order.contains(j as usize));
        let i = choose|i: int| 0 <= i < order.len() && order[i] == j as usize;
        assert(out[i] == items[j]);
    }
    let ids = out.map_values(id);
    assert forall|i: int, j: int| 0 <= i < j < ids.len() implies lex_lt(ids[i], ids[j]) by {
        assert(ids[i] == items.map_values(id)[order[i] as int]);
        assert(ids[j] == items.map_values(id)[order[j] as int]);
    }
}

/// Parses a discovery reply into its devices and displays, each sorted by
/// id.
#[verifier::rlimit(40)]
#[verifier::spinoff_prover]
pub fn parse_discovery_output(output: &str) -> (result: Result<
    (Vec<WindowsCaptureDevice>, Vec<WindowsDisplayInfo>),
    CaptureError,
>)
    ensures
        match spec_discovery(output@, output.spec_bytes().len() as usize as u64) {
            Err(e) => result matches Err(error) && error@ == e,
            Ok(progress) => result matches Ok((devices, displays)) && {
                &&& sorted_by_id(
                    devices@.map_values(|d: WindowsCaptureDevice| d@),
                    progress.devices,
                    |d: DeviceView| d.id,
                )
                &&& sorted_by_id(
                    displays@.map_values(|d: WindowsDisplayInfo| d@),
                    progress.displays,
                    |d: DisplayView| d.id,
                )
            },
        },
{
    let s = chars_of(output);
    let lines = line_ranges(&s);
    let ghost all = spec_lines(output@);
    if lines.len() == 0 || !range_eq(&s, lines[0].0, lines[0].1, "OBSRWIN1\tDISCOVERY\t1") {
        return Err(protocol_error("Windows discovery header is invalid"));
    }
    let bytes = output.len() as u64;
    let mut state = DiscoveryState { devices: Vec::new(), displays: Vec::new(), version: None };
    let ghost init = state_view(&state);
    proof {
        assert(init.devices =~= Seq::<DeviceView>::empty());
        assert(init.displays =~= Seq::<DisplayView>::empty());
    }
    let mut k: usize = 1;
    while k < lines.len()
        invariant
            1 <= k <= lines@.len(),
            s@ == output@,
            all == spec_lines(output@),
            lines@.len() == all.len(),
            forall|i: int|
                0 <= i < lines@.len() ==> {
                    let (a, b) = #[trigger] lines@[i];
                    &&& a <= b <= s@.len()
                    &&& s@.subrange(a as int, b as int) == all[i]
                },
            bytes == output.spec_bytes().len() as usize as u64,
            all.len() > 0,
            all[0] == "OBSRWIN1\tDISCOVERY\t1"@,
            spec_discovery_lines(
                DiscoveryProgress { devices: seq![], displays: seq![], version: None },
                all.skip(1),
                bytes,
            ) == spec_discovery_lines(state_view(&state), all.skip(k as int), bytes),
        decreases lines@.len() - k,
    {
        let (a, b) = lines[k];
        let ghost before = state_view(&state);
        proof {
            assert(all.skip(k as int)[0] == all[k as int]);
            assert(all.skip(k as int).skip(1) =~= all.skip(k + 1));
        }
        match discovery_line(&s, a, b, &mut state, bytes) {
            Ok(()) => {},
            Err(e) => {
                proof {
                    assert(spec_discovery_lines(before, all.skip(k as int), bytes)
                        == Err::<DiscoveryProgress, CaptureErrorView>(e@));
                }
                return Err(e);
            },
        }
        k = k + 1;
    }
    let ghost progress = state_view(&state);
    proof {
        assert(all.skip(k as int) =~= Seq::<Seq<char>>::empty());
        assert(spec_discovery_lines(
            DiscoveryProgress { devices: seq![], displays: seq![], version: None },
            all.skip(1),
            bytes,
        ) == Ok::<DiscoveryProgress, CaptureErrorView>(progress));
    }
    let version = match &state.version {
        Some(v) => v,
        None => {
            return Err(protocol_error("Windows discovery version line is missing"));
        },
    };
    match validate_version_compatibility(version.as_str()) {
        Ok(()) => {},
        Err(e) => {
            return Err(e);
        },
    }
    let ids = device_keys(&state.devices);
    let device_order = match sorted_order(&ids) {
        Some(order) => order,
        None => {
            return Err(protocol_error("Windows discovery contains duplicate device IDs"));
        },
    };
    let display_ids = display_keys(&state.displays);
    let display_order = match sorted_order(&display_ids) {
        Some(order) => order,
        None => {
            return Err(protocol_error("Windows discovery contains duplicate display IDs"));
        },
    };
    let _ = state.devices.len();
    let _ = state.displays.len();
    proof {
        assert(ids@.map_values(|k: Vec<char>| k@).len() == ids@.len());
        assert(display_ids@.map_values(|k: Vec<char>| k@).len() == display_ids@.len());
    }
    let devices = devices_in_order(&state.devices, &device_order);
    let displays = displays_in_order(&state.displays, &display_order);
    proof {
        lemma_ordered_copy(
            devices@.map_values(|d: WindowsCaptureDevice| d@),
            progress.devices,
            device_order@,
            |d: DeviceView| d.id,
        );
        lemma_ordered_copy(
            displays@.map_values(|d: WindowsDisplayInfo| d@),
            progress.displays,
            display_order@,
            |d: DisplayView| d.id,
        );
    }
    Ok((devices, displays))
}

/// One line of a version reply read onto the version found so far.
pub open spec fn spec_version_line(found: Option<Seq<char>>, line: Seq<char>) -> Result<
    Option<Seq<char>>,
    CaptureErrorView,
> {
    if spec_is_blank(line) {
        Ok(found)
    } else {
        let f = spec_split(line, '\t');
        if f.len() != 3 || f[0] != WINDOWS_HELPER_PROTOCOL@ || f[1] != "VERSION"@ {
            Err(protocol("Windows helper version reply is invalid"@))
        } else if found is Some {
            Err(protocol("Windows helper version reply is duplicated"@))
        } else {
            match spec_field(f[2]) {
                Err(e) => Err(e),
                Ok(version) => Ok(Some(version)),
            }
        }
    }
}

/// A version reply's lines read in order, stopping at the first error.
pub open spec fn spec_version_lines(found: Option<Seq<char>>, lines: Seq<Seq<char>>) -> Result<
    Option<Seq<char>>,
    CaptureErrorView,
>
    decreases lines.len(),
{
    if lines.len() == 0 {
        Ok(found)
    } else {
        match spec_version_line(found, lines[0]) {
            Err(e) => Err(e),
            Ok(next) => spec_version_lines(next, lines.skip(1)),
        }
    }
}

/// What a version reply reads to: the one compatible version, or the first
/// error.
pub open spec fn spec_version_reply(output: Seq<char>) -> Result<Seq<char>, CaptureErrorView> {
    match spec_version_lines(None, spec_lines(output)) {
        Err(e) => Err(e),
        Ok(None) => Err(protocol("Windows helper version reply is missing"@)),
        Ok(Some(version)) => if spec_version_compatible(version) {
            Ok(version)
        } else {
            Err(protocol(incompatible_message(version)))
        },
    }
}

/// Parses the helper's reply to a version query: exactly one version line,
/// of a compatible major version, besides blank lines.
#[verifier::rlimit(40)]
#[verifier::spinoff_prover]
pub fn parse_version_output(output: &str) -> (result: Result<String, CaptureError>)
    ensures
        match spec_version_reply(output@) {
            Ok(version) => result matches Ok(text) && text@ == version,
            Err(e) => result matches Err(error) && error@ == e,
        },
{
    let s = chars_of(output);
    let lines = line_ranges(&s);
    let ghost all = spec_lines(output@);
    let mut version: Option<String> = None;
    let mut k: usize = 0;
    assert(all.skip(0) =~= all);
    while k < lines.len()
        invariant
            k <= lines@.len(),
            s@ == output@,
            all == spec_lines(output@),
            lines@.len() == all.len(),
            forall|i: int|
                0 <= i < lines@.len() ==> {
                    let (a, b) = #[trigger] lines@[i];
                    &&& a <= b <= s@.len()
                    &&& s@.subrange(a as int, b as int) == all[i]
                },
            spec_version_lines(None, all) == spec_version_lines(
                match version {
                    Some(v) => Some(v@),
                    None => None,
                },
                all.skip(k as int),
            ),
        decreases lines@.len() - k,
    {
        let (a, b) = lines[k];
        proof {
            assert(all.skip(k as int)[0] == all[k as int]);
            assert(all.skip(k as int).skip(1) =~= all.skip(k + 1));
        }
        if !range_is_blank(&s, a, b) {
            let f = split_ranges(&s, a, b, '\t');
            if f.len() != 3 || !range_eq(&s, f[0].0, f[0].1, WINDOWS_HELPER_PROTOCOL) || !range_eq(
                &s,
                f[1].0,
                f[1].1,
                "VERSION",
            ) {
                return Err(protocol_error("Windows helper version reply is invalid"));
            }
            if version.is_some() {
                return Err(protocol_error("Windows helper version reply is duplicated"));
            }
            match field(&s, f[2].0, f[2].1) {
                Ok(v) => {
                    version = Some(v);
                },
                Err(e) => {
                    return Err(e);
                },
            }
        }
        k = k + 1;
    }
    assert(all.skip(k as int) =~= Seq::<Seq<char>>::empty());
    let version = match version {
        Some(v) => v,
        None => {
            return Err(protocol_error("Windows helper version reply is missing"));
        },
    };
    match validate_version_compatibility(version.as_str()) {
        Ok(()) => Ok(version),
        Err(e) => Err(e),
    }
}

} // verus!
