//! Verdicts of the production-output acceptance checks: which stream
//! endpoints are accepted and under which protocol, and whether HLS output
//! holds media.
use vstd::prelude::*;

use crate::acceptance::lower;
use crate::capture::{ascii_lower, chars_contain, contains_text};
use crate::text::{
    chars_of, push_decimal, push_str, range_eq, range_starts_with, spec_decimal, spec_starts_with,
    string_from_chars,
};

verus! {

/// The index of the first `://` in `s` at or after `i`, if any.
pub open spec fn scheme_end(s: Seq<char>, i: int) -> Option<int>
    decreases s.len() - i,
{
    if i < 0 || i + 3 > s.len() {
        None
    } else if s.subrange(i, i + 3) == "://"@ {
        Some(i)
    } else {
        scheme_end(s, i + 1)
    }
}

/// Whether `scheme` is a stream scheme the production output supports.
pub open spec fn is_stream_scheme(scheme: Seq<char>) -> bool {
    ||| scheme == "rtmp"@
    ||| scheme == "rtmps"@
    ||| scheme == "srt"@
    ||| scheme == "rist"@
    ||| scheme == "whip"@
    ||| scheme == "webrtc"@
}

/// The output protocol a supported scheme needs: WHIP endpoints are
/// served by WebRTC, every other scheme by its own protocol.
pub open spec fn spec_capability_protocol(scheme: Seq<char>) -> Seq<char> {
    if scheme == "whip"@ || scheme == "webrtc"@ {
        "webrtc"@
    } else {
        scheme
    }
}

/// The scheme and protocol of a production stream endpoint, or the
/// message that fails the check: the scheme is the text before the first
/// `://`, in lower case, and must be a supported one.
pub open spec fn spec_stream_protocol(endpoint: Seq<char>) -> Result<(Seq<char>, Seq<char>), Seq<char>> {
    match scheme_end(endpoint, 0) {
        None => Err(
            "OBS_RS_PRODUCTION_STREAM_URL must use rtmp://, rtmps://, srt://, rist://, whip://, or webrtc://"@,
        ),
        Some(end) => {
            let scheme = endpoint.take(end).map_values(|c: char| ascii_lower(c));
            if is_stream_scheme(scheme) {
                Ok((scheme, spec_capability_protocol(scheme)))
            } else {
                Err(
                    "unsupported production stream scheme "@ + scheme
                        + "; expected rtmp/rtmps/srt/rist/whip/webrtc"@,
                )
            }
        },
    }
}

/// Returns the lower-case scheme of a production stream endpoint and the
/// output protocol it needs, or the message that fails the check.
pub fn stream_protocol(endpoint: &str) -> (result: Result<(String, String), String>)
    ensures
        match spec_stream_protocol(endpoint@) {
            Ok((scheme, protocol)) => result matches Ok((s, p)) && s@ == scheme && p@ == protocol,
            Err(message) => result matches Err(m) && m@ == message,
        },
{
    proof {
        reveal_strlit("://");
    }
    let s = chars_of(endpoint);
    let mut i: usize = 0;
    let mut end: Option<usize> = None;
    let len = s.len();
    while i < len && len - i >= 3
        invariant_except_break
            end is None,
        invariant
            s@ == endpoint@,
            len == s@.len(),
            i <= len,
            scheme_end(s@, 0) == scheme_end(s@, i as int),
        ensures
            match end {
                Some(e) => e + 3 <= len && scheme_end(s@, 0) == Some(e as int),
                None => scheme_end(s@, 0) is None,
            },
        decreases len - i,
    {
        if range_eq(s.as_slice(), i, i + 3, "://") {
            end = Some(i);
            break;
        }
        i = i + 1;
    }
    let end = match end {
        Some(end) => end,
        None => {
            return Err(
                "OBS_RS_PRODUCTION_STREAM_URL must use rtmp://, rtmps://, srt://, rist://, whip://, or webrtc://".to_owned(),
            );
        },
    };
    let ghost scheme_spec = s@.take(end as int).map_values(|c: char| ascii_lower(c));
    let mut scheme: Vec<char> = Vec::new();
    let mut k: usize = 0;
    while k < end
        invariant
            k <= end <= s@.len(),
            scheme@ == s@.take(k as int).map_values(|c: char| ascii_lower(c)),
        decreases end - k,
    {
        scheme.push(lower(s[k]));
        k = k + 1;
        assert(scheme@ =~= s@.take(k as int).map_values(|c: char| ascii_lower(c)));
    }
    assert(scheme@ =~= scheme_spec);
    let n = scheme.len();
    let is_whip = range_eq(scheme.as_slice(), 0, n, "whip");
    let is_webrtc = range_eq(scheme.as_slice(), 0, n, "webrtc");
    assert(scheme@.subrange(0, n as int) =~= scheme@);
    let supported = range_eq(scheme.as_slice(), 0, n, "rtmp") || range_eq(scheme.as_slice(), 0, n, "rtmps")
        || range_eq(scheme.as_slice(), 0, n, "srt") || range_eq(scheme.as_slice(), 0, n, "rist")
        || is_whip || is_webrtc;
    if !supported {
        let mut out: Vec<char> = Vec::new();
        push_str(&mut out, "unsupported production stream scheme ");
        let mut j: usize = 0;
        while j < n
            invariant
                j <= n == scheme@.len(),
                out@ == "unsupported production stream scheme "@ + scheme@.take(j as int),
            decreases n - j,
        {
            out.push(scheme[j]);
            j = j + 1;
            assert(out@ =~= "unsupported production stream scheme "@ + scheme@.take(j as int));
        }
        assert(scheme@.take(n as int) =~= scheme@);
        push_str(&mut out, "; expected rtmp/rtmps/srt/rist/whip/webrtc");
        return Err(string_from_chars(out));
    }
    let protocol = if is_whip || is_webrtc {
        "webrtc".to_owned()
    } else {
        string_from_chars(scheme.clone())
    };
    Ok((string_from_chars(scheme), protocol))
}

/// The message that fails an HLS check whose playlist has no media
/// entries.
pub open spec fn spec_playlist_error() -> Seq<char> {
    "native HLS playlist is missing media entries"@
}

/// Whether an HLS playlist holds media: it starts with `#EXTM3U` and has a
/// `#EXTINF:` entry.
pub open spec fn spec_playlist_has_media(playlist: Seq<char>) -> bool {
    spec_starts_with(playlist, "#EXTM3U"@) && contains_text(playlist, "#EXTINF:"@)
}

/// Checks an HLS playlist for media entries.
pub fn check_playlist(playlist: &str) -> (result: Result<(), String>)
    ensures
        spec_playlist_has_media(playlist@) ==> result is Ok,
        !spec_playlist_has_media(playlist@) ==> (result matches Err(m) && m@ == spec_playlist_error()),
{
    let s = chars_of(playlist);
    let starts = range_starts_with(s.as_slice(), 0, s.len(), "#EXTM3U");
    assert(s@.subrange(0, s@.len() as int) =~= s@);
    if starts && chars_contain(&s, "#EXTINF:") {
        Ok(())
    } else {
        Err("native HLS playlist is missing media entries".to_owned())
    }
}

/// The message that fails an HLS check without non-empty segments.
pub open spec fn spec_segments_error(segments: u64, bytes: u64) -> Seq<char> {
    "native HLS output has no non-empty transport segments: segments="@ + spec_decimal(
        segments as nat,
    ) + " bytes="@ + spec_decimal(bytes as nat)
}

/// Checks the transport segments an HLS output wrote: at least one
/// segment and one byte.
pub fn check_segments(segments: u64, bytes: u64) -> (result: Result<(), String>)
    ensures
        segments > 0 && bytes > 0 ==> result is Ok,
        segments == 0 || bytes == 0 ==> (result matches Err(m) && m@ == spec_segments_error(
            segments,
            bytes,
        )),
{
    if segments == 0 || bytes == 0 {
        let mut out: Vec<char> = Vec::new();
        push_str(&mut out, "native HLS output has no non-empty transport segments: segments=");
        push_decimal(&mut out, segments as u128);
        push_str(&mut out, " bytes=");
        push_decimal(&mut out, bytes as u128);
        return Err(string_from_chars(out));
    }
    Ok(())
}

} // verus!
