use clx_music::mp3_probe::{
    cbr_duration_from_total_size, duration_after_probe, first_l3_frame_offset_and_bitrate_bps,
    has_overflowing_tag, id3v2_skip_len, layer3_bitrate_kbps, probe_duration_sec, sample_rate_hz,
};

/// MPEG-1 Layer III, 128 kbit/s, 44.1 kHz, no padding, stereo.
const HEADER_128K: [u8; 4] = [0xFF, 0xFB, 0x90, 0x00];

fn id3_tag(size_bytes: [u8; 4], flags: u8) -> Vec<u8> {
    let mut v = vec![b'I', b'D', b'3', 4, 0, flags];
    v.extend_from_slice(&size_bytes);
    v
}

/// A frame whose side information is followed by a Xing header with `frames` frames.
fn xing_frame(frames: u32) -> Vec<u8> {
    let mut v = HEADER_128K.to_vec();
    v.extend(std::iter::repeat(0u8).take(32));
    v.extend_from_slice(b"Xing");
    v.extend_from_slice(&[0, 0, 0, 1]);
    v.extend_from_slice(&frames.to_be_bytes());
    v
}

#[test]
fn id3v2_length_includes_header_and_footer() {
    assert_eq!(id3v2_skip_len(&id3_tag([0, 0, 0, 0], 0)), Some(10));
    assert_eq!(id3v2_skip_len(&id3_tag([0, 0, 1, 0x7F], 0)), Some(10 + 128 + 127));
    assert_eq!(id3v2_skip_len(&id3_tag([0, 0, 0, 5], 0x10)), Some(25));
    // The size bytes are combined with OR, so overlapping high bits merge.
    assert_eq!(id3v2_skip_len(&id3_tag([0, 0, 1, 0x80], 0)), Some(10 + 0x80));
}

#[test]
fn no_id3v2_tag() {
    assert_eq!(id3v2_skip_len(b"ID3"), None);
    assert_eq!(id3v2_skip_len(&[b'I', b'D', b'4', 0, 0, 0, 0, 0, 0, 0]), None);
}

#[test]
fn bit_rate_tables() {
    assert_eq!(layer3_bitrate_kbps(0, 9), Some(128));
    assert_eq!(layer3_bitrate_kbps(0, 14), Some(320));
    assert_eq!(layer3_bitrate_kbps(1, 1), Some(8));
    assert_eq!(layer3_bitrate_kbps(2, 13), Some(144));
    assert_eq!(layer3_bitrate_kbps(0, 0), None);
    assert_eq!(layer3_bitrate_kbps(0, 15), None);
    assert_eq!(layer3_bitrate_kbps(0, 16), None);
    assert_eq!(layer3_bitrate_kbps(3, 9), None);
}

#[test]
fn sample_rate_table() {
    assert_eq!(sample_rate_hz(0, 0), Some(44100));
    assert_eq!(sample_rate_hz(1, 2), Some(16000));
    assert_eq!(sample_rate_hz(2, 1), Some(12000));
    assert_eq!(sample_rate_hz(0, 3), None);
    assert_eq!(sample_rate_hz(3, 0), None);
}

#[test]
fn first_frame_after_junk_and_id3() {
    let mut buf = id3_tag([0, 0, 0, 2], 0);
    buf.extend_from_slice(&[0xAA, 0xBB]);
    buf.extend_from_slice(&[0x00, 0xFF]);
    buf.extend_from_slice(&HEADER_128K);
    assert_eq!(first_l3_frame_offset_and_bitrate_bps(&buf), Some((14, 128_000)));
}

#[test]
fn frame_search_skips_invalid_headers() {
    // Layer II, then MPEG version "reserved", then bit rate "bad", then a good frame.
    let mut buf = vec![0xFF, 0xFD, 0x90, 0x00];
    buf.extend_from_slice(&[0xFF, 0xEB, 0x90, 0x00]);
    buf.extend_from_slice(&[0xFF, 0xFB, 0xF0, 0x00]);
    buf.extend_from_slice(&[0xFF, 0xF3, 0x40, 0x00]); // MPEG-2, 32 kbit/s
    assert_eq!(first_l3_frame_offset_and_bitrate_bps(&buf), Some((12, 32_000)));
    assert_eq!(first_l3_frame_offset_and_bitrate_bps(&[0xFF, 0xFB, 0x90]), None);
}

#[test]
fn constant_bit_rate_duration() {
    let buf = HEADER_128K.to_vec();
    // 16000 bytes of audio at 128 kbit/s last one second.
    assert_eq!(cbr_duration_from_total_size(&buf, 16_000), Some(1_000_000_000));
    assert_eq!(cbr_duration_from_total_size(&buf, 1), Some(62_500));
    assert_eq!(cbr_duration_from_total_size(&buf, 0), None);
    assert_eq!(cbr_duration_from_total_size(&[1, 2, 3, 4], 16_000), None);
}

#[test]
fn duration_decision_from_outcome() {
    let buf = HEADER_128K.to_vec();
    // Stopped early: the measured duration.
    assert_eq!(duration_after_probe(&buf, None, Some((3, 5, 2))), Some(3_000_000_005));
    // Read everything and the prefix is the whole file: the measured duration.
    assert_eq!(duration_after_probe(&buf, Some(4), Some((3, 0, 4))), Some(3_000_000_000));
    // Read everything of a longer file: the constant-bit-rate estimate.
    assert_eq!(duration_after_probe(&buf, Some(16_000), Some((3, 0, 4))), Some(1_000_000_000));
    // Read everything, size unknown: no estimate.
    assert_eq!(duration_after_probe(&buf, None, Some((3, 0, 4))), None);
    // Measurement failed: the estimate from the size, if known.
    assert_eq!(duration_after_probe(&buf, Some(32_000), None), Some(2_000_000_000));
    assert_eq!(duration_after_probe(&buf, None, None), None);
    assert_eq!(duration_after_probe(&[], Some(32_000), Some((1, 0, 0))), None);
}

#[test]
fn probe_reads_xing_header() {
    // 1225 frames of 1152 samples at 44.1 kHz last 32 seconds.
    let mut buf = xing_frame(1225);
    buf.extend(std::iter::repeat(0u8).take(100));
    assert_eq!(probe_duration_sec(&buf, None), Some(32_000_000_000));
}

#[test]
fn probe_falls_back_to_constant_bit_rate() {
    let buf = HEADER_128K.to_vec();
    assert_eq!(probe_duration_sec(&buf, Some(48_000)), Some(3_000_000_000));
    assert_eq!(probe_duration_sec(&[], Some(48_000)), None);
}

#[test]
fn oversized_xing_frame_count_falls_back_to_constant_bit_rate() {
    // 16_012_798 frames still fit the crate's arithmetic; one more does not.
    let mut ok = xing_frame(16_012_798);
    ok.extend(std::iter::repeat(0u8).take(100));
    assert!(!has_overflowing_tag(&ok));
    // 16_012_798 * 1152 samples at 44.1 kHz.
    assert_eq!(probe_duration_sec(&ok, None), Some(418_293_498_775_510));
    let mut bad = xing_frame(16_012_799);
    bad.extend(std::iter::repeat(0u8).take(100));
    assert!(has_overflowing_tag(&bad));
    assert_eq!(probe_duration_sec(&bad, Some(1_000_000)), Some(62_500_000_000));
    assert_eq!(probe_duration_sec(&bad, None), None);
    // Without the frame-count flag the count is not read.
    let mut unflagged = xing_frame(u32::MAX);
    unflagged[32 + 4 + 7] = 0;
    assert!(!has_overflowing_tag(&unflagged));
}

/// An MPEG-2 Layer III frame (576 samples, 17 bytes of side information)
/// followed by a Xing header with `frames` frames.
fn mpeg2_xing_frame(frames: u32) -> Vec<u8> {
    let mut v = vec![0xFF, 0xF3, 0x90, 0x00];
    v.extend(std::iter::repeat(0u8).take(17));
    v.extend_from_slice(b"Xing");
    v.extend_from_slice(&[0, 0, 0, 1]);
    v.extend_from_slice(&frames.to_be_bytes());
    v
}

#[test]
fn overflow_guard_follows_the_frame_layout() {
    // 576 samples per frame allow twice the frames of 1152.
    assert!(!has_overflowing_tag(&mpeg2_xing_frame(32_025_597)));
    assert!(has_overflowing_tag(&mpeg2_xing_frame(32_025_598)));
    // A Xing tag that does not follow a frame header is never read.
    let mut loose = vec![0u8; 7];
    loose.extend_from_slice(b"Xing");
    loose.extend_from_slice(&[0, 0, 0, 1]);
    loose.extend_from_slice(&u32::MAX.to_be_bytes());
    assert!(!has_overflowing_tag(&loose));
}
