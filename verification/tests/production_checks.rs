use obs_rs::acceptance::window_id_stability;
use obs_rs::production::{check_playlist, check_segments, stream_protocol};

#[test]
fn stream_endpoints_map_to_their_output_protocol() {
    assert_eq!(
        stream_protocol("RTMP://live.example/app"),
        Ok(("rtmp".to_owned(), "rtmp".to_owned()))
    );
    assert_eq!(
        stream_protocol("whip://edge.example/session"),
        Ok(("whip".to_owned(), "webrtc".to_owned()))
    );
    assert_eq!(
        stream_protocol("webrtc://edge.example"),
        Ok(("webrtc".to_owned(), "webrtc".to_owned()))
    );
    assert_eq!(stream_protocol("srt://host:9000"), Ok(("srt".to_owned(), "srt".to_owned())));
}

#[test]
fn stream_endpoints_without_a_supported_scheme_fail() {
    assert_eq!(
        stream_protocol("live.example/app"),
        Err("OBS_RS_PRODUCTION_STREAM_URL must use rtmp://, rtmps://, srt://, rist://, whip://, or webrtc://"
            .to_owned())
    );
    assert_eq!(
        stream_protocol("HTTP://example"),
        Err("unsupported production stream scheme http; expected rtmp/rtmps/srt/rist/whip/webrtc".to_owned())
    );
}

#[test]
fn hls_playlist_needs_a_header_and_media_entries() {
    assert_eq!(check_playlist("#EXTM3U\n#EXT-X-VERSION:3\n#EXTINF:1.0,\nsegment0.ts\n"), Ok(()));
    let missing = Err("native HLS playlist is missing media entries".to_owned());
    assert_eq!(check_playlist("#EXTM3U\n#EXT-X-ENDLIST\n"), missing);
    assert_eq!(check_playlist("#EXTINF:1.0,\nsegment0.ts\n"), missing);
}

#[test]
fn hls_output_needs_non_empty_segments() {
    assert_eq!(check_segments(3, 4096), Ok(()));
    assert_eq!(
        check_segments(0, 0),
        Err("native HLS output has no non-empty transport segments: segments=0 bytes=0".to_owned())
    );
    assert_eq!(
        check_segments(2, 0),
        Err("native HLS output has no non-empty transport segments: segments=2 bytes=0".to_owned())
    );
}

fn ids(values: &[&str]) -> Vec<String> {
    values.iter().map(|value| (*value).to_owned()).collect()
}

#[test]
fn window_ids_must_be_unique_and_shared_across_calls() {
    assert_eq!(window_id_stability(&ids(&["a", "b", "c"]), &ids(&["b", "c", "d"])), Ok(2));
    assert_eq!(window_id_stability(&ids(&[]), &ids(&["d"])), Ok(0));
    assert_eq!(
        window_id_stability(&ids(&["a", "a"]), &ids(&["a"])),
        Err("window discovery returned duplicate stable IDs".to_owned())
    );
    assert_eq!(
        window_id_stability(&ids(&["a"]), &ids(&["b"])),
        Err("window IDs were not stable across immediate discovery calls; target persistence is unsafe"
            .to_owned())
    );
}
