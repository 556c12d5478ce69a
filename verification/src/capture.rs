//! Capture errors and the adapters for the native capture helpers.
//!
//! The helpers own the platform capture objects and run as separate
//! processes; this module holds what the host decides about them: the
//! helper configuration, the line-oriented discovery and version replies,
//! version compatibility and the classification of helper failures.
use vstd::prelude::*;

use crate::windows_discovery::WindowsCaptureKind;
use crate::text::{
    chars_of, decimal_string, range_eq, range_starts_with, push_str, spec_decimal, spec_is_blank, spec_starts_with,
    string_from_chars,
};

verus! {

/// Errors raised by a capture adapter.
#[derive(Debug, PartialEq, Eq)]
pub enum CaptureError {
    /// The platform capture backend cannot run on this host.
    PlatformUnavailable { message: String },
    /// The operating system denied capture permission.
    PermissionDenied,
    /// A helper reply violated the helper protocol.
    Protocol { message: String },
    /// Launching or talking to a helper failed.
    Io { message: String },
    /// A helper reply exceeded the discovery bound.
    ReplyTooLarge { bytes: u64 },
    /// The requested device is not one this adapter can open.
    InvalidDevice { reason: String },
}

/// The mathematical form of a [`CaptureError`].
pub enum CaptureErrorView {
    PlatformUnavailable(Seq<char>),
    PermissionDenied,
    Protocol(Seq<char>),
    Io(Seq<char>),
    ReplyTooLarge(u64),
    InvalidDevice(Seq<char>),
}

impl View for CaptureError {
    type V = CaptureErrorView;

    open spec fn view(&self) -> CaptureErrorView {
        match self {
            CaptureError::PlatformUnavailable { message } => CaptureErrorView::PlatformUnavailable(
                message@,
            ),
            CaptureError::PermissionDenied => CaptureErrorView::PermissionDenied,
            CaptureError::Protocol { message } => CaptureErrorView::Protocol(message@),
            CaptureError::Io { message } => CaptureErrorView::Io(message@),
            CaptureError::ReplyTooLarge { bytes } => CaptureErrorView::ReplyTooLarge(*bytes),
            CaptureError::InvalidDevice { reason } => CaptureErrorView::InvalidDevice(reason@),
        }
    }
}

/// A protocol error with a fixed message.
pub fn protocol_error(message: &str) -> (error: CaptureError)
    ensures
        error@ == CaptureErrorView::Protocol(message@),
{
    CaptureError::Protocol { message: message.to_owned() }
}

/// A host-unavailable error with a fixed message.
pub fn unavailable_error(message: &str) -> (error: CaptureError)
    ensures
        error@ == CaptureErrorView::PlatformUnavailable(message@),
{
    CaptureError::PlatformUnavailable { message: message.to_owned() }
}

/// Handshake of the Windows helper protocol.
pub const WINDOWS_HELPER_PROTOCOL: &'static str = "OBSRWIN1";

/// The helper version that this host speaks.
pub const WINDOWS_HELPER_VERSION: &'static str = "0.1.0";

/// Handshake of the macOS helper protocol.
pub const MACOS_HELPER_PROTOCOL: &'static str = "OBSRMAC1";

/// The helper executable that the Windows adapter looks for by default.
pub const WINDOWS_HELPER_EXE: &'static str = "obs-rs-capture-windows-helper.exe";

/// The Windows Graphics Capture / Media Foundation adapter's configuration.
#[derive(Debug)]
pub struct WindowsCaptureAdapter {
    helper: String,
    capture_cursor: Option<bool>,
    capture_border: Option<bool>,
}

impl WindowsCaptureAdapter {
    /// The helper executable path.
    pub closed spec fn spec_helper(&self) -> Seq<char> {
        self.helper@
    }

    /// The cursor policy for newly opened devices, if overridden.
    pub closed spec fn spec_capture_cursor(&self) -> Option<bool> {
        self.capture_cursor
    }

    /// The border policy for newly opened devices, if overridden.
    pub closed spec fn spec_capture_border(&self) -> Option<bool> {
        self.capture_border
    }

    /// Creates an adapter for an explicit helper path, with the platform's
    /// default cursor and border policies.
    pub fn new(helper: &str) -> (adapter: Self)
        ensures
            adapter.spec_helper() == helper@,
            adapter.spec_capture_cursor() is None,
            adapter.spec_capture_border() is None,
    {
        WindowsCaptureAdapter { helper: helper.to_owned(), capture_cursor: None, capture_border: None }
    }

    /// Overrides the cursor policy for newly opened screen and window devices.
    pub fn with_capture_cursor(self, capture_cursor: bool) -> (adapter: Self)
        ensures
            adapter.spec_helper() == self.spec_helper(),
            adapter.spec_capture_cursor() == Some(capture_cursor),
            adapter.spec_capture_border() == self.spec_capture_border(),
    {
        WindowsCaptureAdapter { capture_cursor: Some(capture_cursor), ..self }
    }

    /// Overrides the border policy for newly opened screen and window devices.
    pub fn with_capture_border(self, capture_border: bool) -> (adapter: Self)
        ensures
            adapter.spec_helper() == self.spec_helper(),
            adapter.spec_capture_cursor() == self.spec_capture_cursor(),
            adapter.spec_capture_border() == Some(capture_border),
    {
        WindowsCaptureAdapter { capture_border: Some(capture_border), ..self }
    }

    /// Returns the helper executable path.
    pub fn helper(&self) -> (helper: &str)
        ensures
            helper@ == self.spec_helper(),
    {
        self.helper.as_str()
    }

    /// Returns the cursor policy, if overridden.
    pub fn capture_cursor(&self) -> (policy: Option<bool>)
        ensures
            policy == self.spec_capture_cursor(),
    {
        self.capture_cursor
    }

    /// Returns the border policy, if overridden.
    pub fn capture_border(&self) -> (policy: Option<bool>)
        ensures
            policy == self.spec_capture_border(),
    {
        self.capture_border
    }

    /// The answer of a host that cannot run the helper to a version query.
    pub fn helper_version_unavailable(&self) -> (error: CaptureError)
        ensures
            error@ == CaptureErrorView::PlatformUnavailable(
                "Windows capture helper requires Windows"@,
            ),
    {
        unavailable_error("Windows capture helper requires Windows")
    }

    /// The answer of a host that cannot run the helper to display discovery.
    pub fn discover_displays_unavailable(&self) -> (error: CaptureError)
        ensures
            error@ == CaptureErrorView::PlatformUnavailable(
                "Windows Graphics Capture requires Windows"@,
            ),
    {
        unavailable_error("Windows Graphics Capture requires Windows")
    }

    /// The answer of a host that cannot run the helper to device discovery
    /// or to opening a device.
    pub fn discover_unavailable(&self) -> (error: CaptureError)
        ensures
            error@ == CaptureErrorView::PlatformUnavailable(
                "Windows Graphics Capture and Media Foundation require Windows"@,
            ),
    {
        unavailable_error("Windows Graphics Capture and Media Foundation require Windows")
    }
}

impl WindowsCaptureAdapter {
    /// The name of the capture backend.
    pub fn backend_name(&self) -> (name: &'static str)
        ensures
            name@ == "windows-graphics-capture-media-foundation"@,
    {
        proof {
            reveal_strlit("windows-graphics-capture-media-foundation");
        }
        "windows-graphics-capture-media-foundation"
    }
}

/// The kind of capture target a stable id names, or the error for an id
/// that this adapter cannot open (cameras are opened elsewhere).
pub open spec fn spec_open_kind(stable_id: Seq<char>) -> Result<WindowsCaptureKind, CaptureErrorView> {
    if stable_id == "wgc-screen-picker"@ || spec_starts_with(stable_id, "wgc-screen-"@) {
        Ok(WindowsCaptureKind::Screen)
    } else if stable_id == "wgc-window-picker"@ || spec_starts_with(stable_id, "wgc-window-"@) {
        Ok(WindowsCaptureKind::Window)
    } else {
        Err(
            CaptureErrorView::InvalidDevice(
                "unknown Windows Graphics Capture stable ID "@ + stable_id + "; cameras use Nokhwa"@,
            ),
        )
    }
}

/// Classifies a stable id before a capture session is opened for it.
pub fn open_kind(stable_id: &str) -> (result: Result<WindowsCaptureKind, CaptureError>)
    ensures
        match (result, spec_open_kind(stable_id@)) {
            (Ok(kind), Ok(expected)) => kind == expected,
            (Err(error), Err(expected)) => error@ == expected,
            _ => false,
        },
{
    let chars = chars_of(stable_id);
    let n = chars.len();
    if range_eq(chars.as_slice(), 0, n, "wgc-screen-picker") || range_starts_with(
        chars.as_slice(),
        0,
        n,
        "wgc-screen-",
    ) {
        proof {
            assert(chars@.subrange(0, n as int) =~= stable_id@);
        }
        return Ok(WindowsCaptureKind::Screen);
    }
    assert(chars@.subrange(0, n as int) =~= stable_id@);
    if range_eq(chars.as_slice(), 0, n, "wgc-window-picker") || range_starts_with(
        chars.as_slice(),
        0,
        n,
        "wgc-window-",
    ) {
        return Ok(WindowsCaptureKind::Window);
    }
    let mut out: Vec<char> = Vec::new();
    push_str(&mut out, "unknown Windows Graphics Capture stable ID ");
    push_str(&mut out, stable_id);
    push_str(&mut out, "; cameras use Nokhwa");
    Err(CaptureError::InvalidDevice { reason: string_from_chars(out) })
}

/// The text of a boolean flag value.
pub open spec fn bool_text(b: bool) -> Seq<char> {
    if b {
        "true"@
    } else {
        "false"@
    }
}

/// The command line of a capture session: the protocol, the device, the
/// frame size and rate, then each policy that is overridden.
pub open spec fn spec_capture_helper_args(
    stable_id: Seq<char>,
    width: u32,
    height: u32,
    fps_numerator: u32,
    fps_denominator: u32,
    capture_cursor: Option<bool>,
    capture_border: Option<bool>,
) -> Seq<Seq<char>> {
    let base = seq![
        "--protocol"@,
        "OBSRWIN1"@,
        "--device"@,
        stable_id,
        "--width"@,
        spec_decimal(width as nat),
        "--height"@,
        spec_decimal(height as nat),
        "--fps-numerator"@,
        spec_decimal(fps_numerator as nat),
        "--fps-denominator"@,
        spec_decimal(fps_denominator as nat),
    ];
    let with_cursor = match capture_cursor {
        Some(c) => base + seq!["--capture-cursor"@, bool_text(c)],
        None => base,
    };
    match capture_border {
        Some(b) => with_cursor + seq!["--capture-border"@, bool_text(b)],
        None => with_cursor,
    }
}

/// The text of a boolean flag value.
fn bool_string(b: bool) -> (text: String)
    ensures
        text@ == bool_text(b),
{
    proof {
        reveal_strlit("true");
        reveal_strlit("false");
    }
    if b {
        "true".to_owned()
    } else {
        "false".to_owned()
    }
}

/// Builds the helper's command line for one capture session.
pub fn capture_helper_args(
    stable_id: &str,
    width: u32,
    height: u32,
    fps_numerator: u32,
    fps_denominator: u32,
    capture_cursor: Option<bool>,
    capture_border: Option<bool>,
) -> (args: Vec<String>)
    ensures
        args@.len() == spec_capture_helper_args(
            stable_id@,
            width,
            height,
            fps_numerator,
            fps_denominator,
            capture_cursor,
            capture_border,
        ).len(),
        forall|i: int|
            0 <= i < args@.len() ==> (#[trigger] args@[i])@ == spec_capture_helper_args(
                stable_id@,
                width,
                height,
                fps_numerator,
                fps_denominator,
                capture_cursor,
                capture_border,
            )[i],
{
    let ghost expected = spec_capture_helper_args(
        stable_id@,
        width,
        height,
        fps_numerator,
        fps_denominator,
        capture_cursor,
        capture_border,
    );
    let mut args: Vec<String> = Vec::new();
    args.push("--protocol".to_owned());
    args.push(WINDOWS_HELPER_PROTOCOL.to_owned());
    args.push("--device".to_owned());
    args.push(stable_id.to_owned());
    args.push("--width".to_owned());
    args.push(decimal_string(width as u128));
    args.push("--height".to_owned());
    args.push(decimal_string(height as u128));
    args.push("--fps-numerator".to_owned());
    args.push(decimal_string(fps_numerator as u128));
    args.push("--fps-denominator".to_owned());
    args.push(decimal_string(fps_denominator as u128));
    match capture_cursor {
        Some(c) => {
            args.push("--capture-cursor".to_owned());
            args.push(bool_string(c));
        },
        None => {},
    }
    match capture_border {
        Some(b) => {
            args.push("--capture-border".to_owned());
            args.push(bool_string(b));
        },
        None => {},
    }
    args
}

/// The ScreenCaptureKit / AVFoundation adapter's configuration.
#[derive(Debug)]
pub struct MacOsCaptureAdapter {
    helper: String,
}

impl MacOsCaptureAdapter {
    /// The helper executable path.
    pub closed spec fn spec_helper(&self) -> Seq<char> {
        self.helper@
    }

    /// Creates an adapter for an explicit helper path.
    pub fn new(helper: &str) -> (adapter: Self)
        ensures
            adapter.spec_helper() == helper@,
    {
        MacOsCaptureAdapter { helper: helper.to_owned() }
    }

    /// Returns the helper executable path.
    pub fn helper(&self) -> (helper: &str)
        ensures
            helper@ == self.spec_helper(),
    {
        self.helper.as_str()
    }

    /// The name of the capture backend.
    pub fn backend_name(&self) -> (name: &'static str)
        ensures
            name@ == "macos-screencapturekit-avfoundation"@,
    {
        proof {
            reveal_strlit("macos-screencapturekit-avfoundation");
        }
        "macos-screencapturekit-avfoundation"
    }

    /// The answer of a host other than macOS to device discovery or to
    /// opening a device.
    pub fn discover_unavailable(&self) -> (error: CaptureError)
        ensures
            error@ == CaptureErrorView::PlatformUnavailable(
                "ScreenCaptureKit and AVFoundation require macOS"@,
            ),
    {
        unavailable_error("ScreenCaptureKit and AVFoundation require macOS")
    }
}

impl Default for MacOsCaptureAdapter {
    /// The adapter for the helper found on the search path.
    fn default() -> (adapter: Self)
        ensures
            adapter.spec_helper() == "obs-rs-capture-macos-helper"@,
    {
        MacOsCaptureAdapter::new("obs-rs-capture-macos-helper")
    }
}

/// The lowercase form of an ASCII letter; other characters are unchanged.
pub open spec fn ascii_lower(c: char) -> char {
    if 'A' as u32 <= c as u32 <= 'Z' as u32 {
        ((c as u32) + 32) as char
    } else {
        c
    }
}

/// Whether `needle` occurs in `hay` at position `i`.
pub open spec fn occurs_at(hay: Seq<char>, needle: Seq<char>, i: int) -> bool {
    0 <= i && i + needle.len() <= hay.len() && hay.subrange(i, i + needle.len()) == needle
}

/// Whether `needle` occurs in `hay`.
pub open spec fn contains_text(hay: Seq<char>, needle: Seq<char>) -> bool {
    exists|i: int| occurs_at(hay, needle, i)
}

/// The markers of a permission failure in a helper's diagnostics.
pub open spec fn permission_markers() -> Seq<Seq<char>> {
    seq![
        "access is denied"@,
        "permission denied"@,
        "privacy"@,
        "not authorized"@,
        "unauthorized"@,
    ]
}

/// Whether a helper failure message reports denied permission: its ASCII
/// lowercase form contains one of the markers.
pub open spec fn spec_is_permission_failure(message: Seq<char>) -> bool {
    let lower = message.map_values(|c: char| ascii_lower(c));
    exists|k: int| 0 <= k < permission_markers().len() && contains_text(lower, #[trigger] permission_markers()[k])
}

fn lower_chars(s: &str) -> (lower: Vec<char>)
    ensures
        lower@ == s@.map_values(|c: char| ascii_lower(c)),
{
    let chars = chars_of(s);
    let mut lower: Vec<char> = Vec::new();
    let mut i: usize = 0;
    while i < chars.len()
        invariant
            i <= chars@.len(),
            chars@ == s@,
            lower@ == chars@.take(i as int).map_values(|c: char| ascii_lower(c)),
        decreases chars@.len() - i,
    {
        let c = chars[i];
        let code = c as u32;
        let l = if 65 <= code && code <= 90 {
            let shifted = code + 32;
            assert(shifted <= 122);
            lower_ascii_letter(shifted)
        } else {
            c
        };
        lower.push(l);
        i = i + 1;
        assert(lower@ =~= chars@.take(i as int).map_values(|c: char| ascii_lower(c)));
    }
    assert(chars@.take(chars@.len() as int) =~= chars@);
    lower
}

fn lower_ascii_letter(code: u32) -> (c: char)
    requires
        97 <= code <= 122,
    ensures
        c == code as char,
{
    let letters = [
        'a', 'b', 'c', 'd', 'e', 'f', 'g', 'h', 'i', 'j', 'k', 'l', 'm', 'n', 'o', 'p', 'q', 'r',
        's', 't', 'u', 'v', 'w', 'x', 'y', 'z',
    ];
    let c = letters[(code - 97) as usize];
    assert(c == code as char) by {
        assert(letters@ =~= seq![
            'a', 'b', 'c', 'd', 'e', 'f', 'g', 'h', 'i', 'j', 'k', 'l', 'm', 'n', 'o', 'p', 'q', 'r',
            's', 't', 'u', 'v', 'w', 'x', 'y', 'z',
        ]);
    }
    c
}

/// Whether `needle` occurs in `hay`.
pub fn chars_contain(hay: &Vec<char>, needle: &str) -> (found: bool)
    ensures
        found == contains_text(hay@, needle@),
{
    let n = chars_of(needle);
    if n.len() > hay.len() {
        proof {
            assert forall|i: int| !occurs_at(hay@, needle@, i) by {}
        }
        return false;
    }
    let hay_len = hay.len();
    let mut i: usize = 0;
    while i <= hay.len() - n.len()
        invariant
            n@ == needle@,
            hay_len == hay@.len(),
            n@.len() <= hay@.len(),
            i <= hay@.len() - n@.len() + 1,
            forall|j: int| 0 <= j < i ==> !occurs_at(hay@, needle@, j),
        decreases hay@.len() - i,
    {
        let mut k: usize = 0;
        let mut matched = true;
        while k < n.len()
            invariant
                k <= n@.len(),
                hay_len == hay@.len(),
                n@.len() <= hay@.len(),
                i <= hay@.len() - n@.len(),
                matched <==> forall|m: int| 0 <= m < k ==> hay@[i + m] == n@[m],
            decreases n@.len() - k,
        {
            if hay[i + k] != n[k] {
                matched = false;
            }
            k = k + 1;
        }
        if matched {
            assert(hay@.subrange(i as int, i + n@.len()) =~= needle@);
            assert(occurs_at(hay@, needle@, i as int));
            return true;
        }
        proof {
            if occurs_at(hay@, needle@, i as int) {
                let m = choose|m: int| 0 <= m < n@.len() && hay@[i + m] != n@[m];
                assert(hay@.subrange(i as int, i + n@.len())[m] == hay@[i + m]);
            }
        }
        i = i + 1;
    }
    proof {
        assert forall|j: int| !occurs_at(hay@, needle@, j) by {
            if j >= i {
                assert(j + needle@.len() > hay@.len());
            }
        }
    }
    false
}

/// Whether a helper failure message reports denied permission.
pub fn is_permission_failure(message: &str) -> (denied: bool)
    ensures
        denied == spec_is_permission_failure(message@),
{
    let lower = lower_chars(message);
    let markers = [
        "access is denied",
        "permission denied",
        "privacy",
        "not authorized",
        "unauthorized",
    ];
    let mut k: usize = 0;
    while k < 5
        invariant
            k <= 5,
            lower@ == message@.map_values(|c: char| ascii_lower(c)),
            forall|j: int| 0 <= j < 5 ==> (#[trigger] markers@[j])@ == permission_markers()[j],
            forall|j: int| 0 <= j < k ==> !contains_text(lower@, #[trigger] permission_markers()[j]),
        decreases 5 - k,
    {
        if chars_contain(&lower, markers[k]) {
            return true;
        }
        k = k + 1;
    }
    false
}

/// The message of a helper that exited with `status`, followed by its
/// diagnostics when it wrote any.
pub open spec fn spec_helper_exit_message(status: Seq<char>, diagnostics: Seq<char>) -> Seq<char> {
    if diagnostics.len() == 0 {
        "Windows capture helper exited with "@ + status
    } else {
        "Windows capture helper exited with "@ + status + ": "@ + diagnostics
    }
}

/// Describes a helper exit from the text of its exit status and its
/// diagnostics.
pub fn helper_exit_message(status: &str, diagnostics: &str) -> (message: String)
    ensures
        message@ == spec_helper_exit_message(status@, diagnostics@),
{
    let mut out: Vec<char> = Vec::new();
    push_str(&mut out, "Windows capture helper exited with ");
    push_str(&mut out, status);
    if diagnostics.unicode_len() > 0 {
        push_str(&mut out, ": ");
        push_str(&mut out, diagnostics);
    }
    assert(out@ =~= spec_helper_exit_message(status@, diagnostics@));
    string_from_chars(out)
}

/// The most reply bytes accepted from one helper command.
pub const MAX_DISCOVERY_REPLY_BYTES: u64 = 262_144;

/// A helper failure message with the helper's diagnostics appended after
/// a colon, when it wrote any.
pub open spec fn spec_with_diagnostics(message: Seq<char>, diagnostics: Seq<char>) -> Seq<char> {
    if diagnostics.len() == 0 {
        message
    } else {
        message + ": "@ + diagnostics
    }
}

/// Appends the helper's diagnostics to a failure message.
pub fn with_diagnostics(message: &str, diagnostics: &str) -> (text: String)
    ensures
        text@ == spec_with_diagnostics(message@, diagnostics@),
{
    let mut out: Vec<char> = Vec::new();
    push_str(&mut out, message);
    if diagnostics.unicode_len() > 0 {
        push_str(&mut out, ": ");
        push_str(&mut out, diagnostics);
    }
    assert(out@ =~= spec_with_diagnostics(message@, diagnostics@));
    string_from_chars(out)
}

/// The outcome of a helper command that finished: a reply of more than
/// [`MAX_DISCOVERY_REPLY_BYTES`] bytes is refused first, then a failed exit
/// is a protocol error carrying the exit status and diagnostics, else the
/// reply is returned.
pub fn helper_reply(
    output: String,
    reply_bytes: u64,
    exited_successfully: bool,
    status: &str,
    diagnostics: &str,
) -> (result: Result<String, CaptureError>)
    ensures
        reply_bytes > MAX_DISCOVERY_REPLY_BYTES ==> (result matches Err(error) && error@
            == CaptureErrorView::ReplyTooLarge(reply_bytes)),
        reply_bytes <= MAX_DISCOVERY_REPLY_BYTES && !exited_successfully ==> (result matches Err(
            error,
        ) && error@ == CaptureErrorView::Protocol(spec_helper_exit_message(status@, diagnostics@))),
        reply_bytes <= MAX_DISCOVERY_REPLY_BYTES && exited_successfully ==> (result matches Ok(reply)
            && reply@ == output@),
{
    if reply_bytes > MAX_DISCOVERY_REPLY_BYTES {
        return Err(CaptureError::ReplyTooLarge { bytes: reply_bytes });
    }
    if !exited_successfully {
        return Err(CaptureError::Protocol { message: helper_exit_message(status, diagnostics) });
    }
    Ok(output)
}

/// Classifies a helper exit: denied permission when the message says so,
/// otherwise an unavailable platform carrying the message.
pub fn classify_helper_exit(status: &str, diagnostics: &str) -> (error: CaptureError)
    ensures
        ({
            let message = spec_helper_exit_message(status@, diagnostics@);
            if spec_is_permission_failure(message) {
                error@ == CaptureErrorView::PermissionDenied
            } else {
                error@ == CaptureErrorView::PlatformUnavailable(message)
            }
        }),
{
    let message = helper_exit_message(status, diagnostics);
    if is_permission_failure(message.as_str()) {
        CaptureError::PermissionDenied
    } else {
        CaptureError::PlatformUnavailable { message }
    }
}

/// The error for a helper that could not be launched: unavailable when the
/// executable is missing, an I/O error otherwise.
pub open spec fn spec_launch_error(operation: Seq<char>, not_found: bool, error: Seq<char>) -> CaptureErrorView {
    if not_found {
        CaptureErrorView::PlatformUnavailable(operation + " is unavailable: "@ + error)
    } else {
        CaptureErrorView::Io("launch "@ + operation + ": "@ + error)
    }
}

/// Classifies a failed helper launch from whether the executable was not
/// found and the text of the operating system's error.
pub fn launch_error(operation: &str, not_found: bool, error: &str) -> (result: CaptureError)
    ensures
        result@ == spec_launch_error(operation@, not_found, error@),
{
    let mut out: Vec<char> = Vec::new();
    if not_found {
        push_str(&mut out, operation);
        push_str(&mut out, " is unavailable: ");
        push_str(&mut out, error);
        assert(out@ =~= operation@ + " is unavailable: "@ + error@);
        CaptureError::PlatformUnavailable { message: string_from_chars(out) }
    } else {
        push_str(&mut out, "launch ");
        push_str(&mut out, operation);
        push_str(&mut out, ": ");
        push_str(&mut out, error);
        assert(out@ =~= "launch "@ + operation@ + ": "@ + error@);
        CaptureError::Io { message: string_from_chars(out) }
    }
}

} // verus!
