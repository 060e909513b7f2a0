//! Estimates the duration of an MP3 file from a prefix of its bytes.
//!
//! The `mp3-duration` crate is asked first: it returns early on a Xing/Info header.
//! Otherwise, when the size of the whole file is known, the duration follows from
//! the bit rate of the first MPEG Layer III frame (constant bit rate). Durations
//! are whole nanoseconds.

use vstd::prelude::*;

verus! {

// ---------------------------------------------------------------------------
// The outside call
// ---------------------------------------------------------------------------

/// What `mp3_duration::from_read` measures on a reader over `bytes`: the duration
/// as whole seconds and the nanoseconds beyond them, and how far the reader got;
/// `None` for an error.
pub uninterp spec fn mp3_duration_outcome(bytes: Seq<u8>) -> Option<(u64, u32, u64)>;

/// Runs `mp3_duration::from_read` on a `Cursor` over `prefix` and reports the
/// measured duration (seconds, sub-second nanoseconds) with the cursor position
/// afterwards. The contract claims that the result is the named outcome of the
/// bytes, that the nanoseconds stay below one second (as for any `Duration`), and
/// that the cursor does not pass the end of the bytes (the crate only reads).
/// Bytes with a tag on which the crate's arithmetic overflows are left out: in a
/// build with overflow checks the crate panics on them.
#[verifier::external_body]
fn mp3_duration_of(prefix: &[u8]) -> (r: Option<(u64, u32, u64)>)
    requires
        !overflowing_tag(prefix@),
    ensures
        r == mp3_duration_outcome(prefix@),
        r matches Some(o) ==> o.1 < 1_000_000_000 && o.2 <= prefix@.len(),
{
    let mut cur = std::io::Cursor::new(prefix);
    match mp3_duration::from_read(&mut cur) {
        Ok(d) => Some((d.as_secs(), d.subsec_nanos(), cur.position())),
        Err(_) => None,
    }
}

// ---------------------------------------------------------------------------
// Specification
// ---------------------------------------------------------------------------

/// The length of an ID3v2 tag at the start of `buf` (header, body, footer).
pub open spec fn id3v2_skip_len_spec(buf: Seq<u8>) -> Option<int> {
    if buf.len() < 10 || buf[0] != 0x49u8 || buf[1] != 0x44u8 || buf[2] != 0x33u8 {
        None
    } else {
        let footer: int = if buf[5] & 0x10u8 != 0 {
            10
        } else {
            0
        };
        let size: usize = (buf[9] as usize) | ((buf[8] as usize) << 7usize) | ((buf[7] as usize)
            << 14usize) | ((buf[6] as usize) << 21usize);
        Some(size as int + 10 + footer)
    }
}

/// MPEG-1 Layer III bit rates in kbit/s, by bit-rate index.
pub open spec fn l3_kbps_mpeg1() -> Seq<u32> {
    seq![0u32, 32, 40, 48, 56, 64, 80, 96, 112, 128, 160, 192, 224, 256, 320, 0]
}

/// MPEG-2 and MPEG-2.5 Layer III bit rates in kbit/s, by bit-rate index.
pub open spec fn l3_kbps_mpeg2() -> Seq<u32> {
    seq![0u32, 8, 16, 24, 32, 40, 48, 56, 64, 80, 96, 112, 128, 144, 160, 0]
}

/// Sample rates in Hz by version index (0: MPEG-1, 1: MPEG-2, 2: MPEG-2.5) and
/// sample-rate index.
pub open spec fn sample_rates() -> Seq<Seq<u32>> {
    seq![seq![44100u32, 48000, 32000], seq![22050u32, 24000, 16000], seq![11025u32, 12000, 8000]]
}

pub open spec fn layer3_bitrate_kbps_spec(version_idx: int, br_index: int) -> Option<u32> {
    if version_idx == 0 && 0 <= br_index < 16 && l3_kbps_mpeg1()[br_index] != 0 {
        Some(l3_kbps_mpeg1()[br_index])
    } else if (version_idx == 1 || version_idx == 2) && 0 <= br_index < 16
        && l3_kbps_mpeg2()[br_index] != 0 {
        Some(l3_kbps_mpeg2()[br_index])
    } else {
        None
    }
}

pub open spec fn sample_rate_hz_spec(version_idx: int, sr_index: int) -> Option<u32> {
    if 0 <= version_idx < 3 && 0 <= sr_index < 3 {
        Some(sample_rates()[version_idx][sr_index])
    } else {
        None
    }
}

/// The four bytes at `i`, big-endian.
pub open spec fn be_u32(buf: Seq<u8>, i: int) -> u32 {
    ((buf[i] as u32) << 24u32) | ((buf[i + 1] as u32) << 16u32) | ((buf[i + 2] as u32) << 8u32)
        | (buf[i + 3] as u32)
}

/// The four bytes at `i`, little-endian.
pub open spec fn le_u32(buf: Seq<u8>, i: int) -> u32 {
    ((buf[i + 3] as u32) << 24u32) | ((buf[i + 2] as u32) << 16u32) | ((buf[i + 1] as u32) << 8u32)
        | (buf[i] as u32)
}

/// The frame header `h` is one on which `mp3-duration` goes on to look for a
/// Xing/Info tag: frame sync, a version other than the reserved one, a defined
/// layer and a sample-rate index other than the reserved one.
pub open spec fn xing_reading_header(h: u32) -> bool {
    &&& h >> 21u32 == 0x7ffu32
    &&& header_version_raw(h) != 1
    &&& header_layer_raw(h) != 0
    &&& header_sample_rate_index(h) != 3
}

/// The length of the side information after the header `h`, where a Xing/Info
/// tag starts: 32 bytes (MPEG-1) or 17 (MPEG-2 and 2.5), and 17 or 9 for mono.
pub open spec fn side_info_len(h: u32) -> int {
    let mono = (h >> 6u32) & 3u32 == 3u32;
    if header_version_raw(h) == 3 {
        if mono {
            17
        } else {
            32
        }
    } else {
        if mono {
            9
        } else {
            17
        }
    }
}

/// The samples in a frame with header `h`: 384 (Layer I), 1152 (Layer II, and
/// Layer III of MPEG-1) or 576 (Layer III of MPEG-2 and 2.5).
pub open spec fn samples_per_frame(h: u32) -> int {
    if header_layer_raw(h) == 3 {
        384
    } else if header_layer_raw(h) == 2 {
        1152
    } else if header_version_raw(h) == 3 {
        1152
    } else {
        576
    }
}

/// At `j` stands a frame header followed, after its side information, by a
/// Xing or Info tag whose frame count, times the samples of a frame, in
/// nanoseconds (`10^9` times), does not fit in a `u64`.
pub open spec fn oversized_xing_at(b: Seq<u8>, j: int) -> bool {
    0 <= j && j + 4 <= b.len() && {
        let h = be_u32(b, j);
        let x = j + 4 + side_info_len(h);
        &&& xing_reading_header(h)
        &&& x + 12 <= b.len()
        &&& ((b[x] == 0x58u8 && b[x + 1] == 0x69u8 && b[x + 2] == 0x6eu8 && b[x + 3] == 0x67u8)
            || (b[x] == 0x49u8 && b[x + 1] == 0x6eu8 && b[x + 2] == 0x66u8 && b[x + 3] == 0x6fu8))
        &&& b[x + 7] & 1u8 != 0u8
        &&& be_u32(b, x + 8) as int * samples_per_frame(h) * 1_000_000_000 > u64::MAX
    }
}

/// At `j` stands an APEv2 tag whose size, with its 16-byte footer, does not fit
/// in a `usize`.
pub open spec fn oversized_ape_at(b: Seq<u8>, j: int) -> bool {
    &&& 0 <= j && j + 16 <= b.len()
    &&& b[j] == 0x41u8 && b[j + 1] == 0x50u8 && b[j + 2] == 0x45u8 && b[j + 3] == 0x54u8
    &&& b[j + 4] == 0x41u8 && b[j + 5] == 0x47u8 && b[j + 6] == 0x45u8 && b[j + 7] == 0x58u8
    &&& le_u32(b, j + 12) as int + 16 > usize::MAX
}

/// The bytes hold a tag on which the arithmetic of `mp3-duration` overflows (and,
/// in a build with overflow checks, panics).
pub open spec fn overflowing_tag(b: Seq<u8>) -> bool {
    exists|j: int| oversized_xing_at(b, j) || oversized_ape_at(b, j)
}

pub open spec fn header_version_raw(h: u32) -> u32 {
    (h >> 19u32) & 3u32
}

pub open spec fn header_layer_raw(h: u32) -> u32 {
    (h >> 17u32) & 3u32
}

pub open spec fn header_bitrate_index(h: u32) -> u32 {
    (h >> 12u32) & 0xfu32
}

pub open spec fn header_sample_rate_index(h: u32) -> u32 {
    (h >> 10u32) & 3u32
}

/// The version index of a header: 0 for MPEG-1, 1 for MPEG-2, 2 for MPEG-2.5.
pub open spec fn header_version_idx(h: u32) -> int {
    if header_version_raw(h) == 3 {
        0
    } else if header_version_raw(h) == 2 {
        1
    } else {
        2
    }
}

/// `h` is the header of an MPEG Layer III frame: frame sync, a valid version, a
/// bit-rate index other than free (0) and bad (15), a valid sample-rate index.
pub open spec fn is_l3_header(h: u32) -> bool {
    &&& h >> 21u32 == 0x7ffu32
    &&& header_version_raw(h) != 1
    &&& header_layer_raw(h) == 1
    &&& header_bitrate_index(h) != 0
    &&& header_bitrate_index(h) < 15
    &&& header_sample_rate_index(h) != 3
}

/// A Layer III frame header starts at `i` in `buf`.
pub open spec fn l3_header_at(buf: Seq<u8>, i: int) -> bool {
    0 <= i && i + 4 <= buf.len() && is_l3_header(be_u32(buf, i))
}

/// The bit rate, in bit/s, of the Layer III frame header `h`.
pub open spec fn header_bps(h: u32) -> int {
    1000 * match layer3_bitrate_kbps_spec(header_version_idx(h), header_bitrate_index(h) as int) {
        Some(k) => k as int,
        None => 0,
    }
}

/// Where the search for the first frame starts: after an ID3v2 tag, if any.
pub open spec fn scan_start(buf: Seq<u8>) -> int {
    match id3v2_skip_len_spec(buf) {
        Some(n) => if n < buf.len() {
            n
        } else {
            buf.len() as int
        },
        None => 0,
    }
}

/// `i` is the first Layer III frame header at or after the scan start.
pub open spec fn is_first_l3_frame(buf: Seq<u8>, i: int) -> bool {
    &&& scan_start(buf) <= i
    &&& l3_header_at(buf, i)
    &&& forall|j: int| scan_start(buf) <= j < i ==> !l3_header_at(buf, j)
}

/// The offset and bit rate (bit/s) of the first Layer III frame of `buf`.
pub open spec fn first_l3_frame_spec(buf: Seq<u8>) -> Option<(int, int)> {
    if exists|i: int| is_first_l3_frame(buf, i) {
        let i = choose|i: int| is_first_l3_frame(buf, i);
        Some((i, header_bps(be_u32(buf, i))))
    } else {
        None
    }
}

/// The duration of a constant-bit-rate file of `total` bytes whose first frame is
/// the first frame of `prefix`: the bits after that frame's offset divided by its
/// bit rate, in nanoseconds (rounded down); `None` without a frame, or when no
/// byte follows the offset.
pub open spec fn cbr_duration_spec(prefix: Seq<u8>, total: int) -> Option<int> {
    match first_l3_frame_spec(prefix) {
        None => None,
        Some(f) => if total - f.0 > 0 {
            Some((total - f.0) * 8 * 1_000_000_000 / f.1)
        } else {
            None
        },
    }
}

/// The duration estimate from a prefix, its outcome under `mp3-duration`, and the
/// total file size when known, in nanoseconds.
pub open spec fn duration_after_probe_spec(
    prefix: Seq<u8>,
    total_file_bytes: Option<u64>,
    outcome: Option<(u64, u32, u64)>,
) -> Option<int> {
    if prefix.len() == 0 {
        None
    } else {
        match outcome {
            Some(o) => {
                let ns = o.0 as int * 1_000_000_000 + o.1 as int;
                if (o.2 as int) < prefix.len() {
                    Some(ns)
                } else {
                    match total_file_bytes {
                        Some(t) => if t > 0 && t == prefix.len() {
                            Some(ns)
                        } else {
                            cbr_duration_spec(prefix, t as int)
                        },
                        None => None,
                    }
                }
            },
            None => match total_file_bytes {
                Some(t) => cbr_duration_spec(prefix, t as int),
                None => None,
            },
        }
    }
}

// ---------------------------------------------------------------------------
// Implementation
// ---------------------------------------------------------------------------

/// The length of the ID3v2 tag at the start of `buf`, if it starts with one.
pub fn id3v2_skip_len(buf: &[u8]) -> (r: Option<usize>)
    ensures
        r matches Some(n) ==> id3v2_skip_len_spec(buf@) == Some(n as int),
        r is None ==> id3v2_skip_len_spec(buf@) is None,
{
    if buf.len() < 10 || buf[0] != 0x49u8 || buf[1] != 0x44u8 || buf[2] != 0x33u8 {
        return None;
    }
    let flags = buf[5];
    let footer: usize = if flags & 0x10u8 != 0 {
        10
    } else {
        0
    };
    let b6 = buf[6];
    let b7 = buf[7];
    let b8 = buf[8];
    let b9 = buf[9];
    let size: usize = (b9 as usize) | ((b8 as usize) << 7usize) | ((b7 as usize) << 14usize) | ((
    b6 as usize) << 21usize);
    assert(((b9 as usize) | ((b8 as usize) << 7usize) | ((b7 as usize) << 14usize) | ((b6 as usize)
        << 21usize)) <= 0x1fff_ffffusize) by (bit_vector);
    Some(size + 10 + footer)
}

/// The Layer III bit rate in kbit/s for a version index and bit-rate index.
pub fn layer3_bitrate_kbps(version_idx: usize, br_index: u8) -> (r: Option<u32>)
    ensures
        r == layer3_bitrate_kbps_spec(version_idx as int, br_index as int),
{
    let t: [u32; 16] = if version_idx == 0 {
        [0, 32, 40, 48, 56, 64, 80, 96, 112, 128, 160, 192, 224, 256, 320, 0]
    } else if version_idx == 1 || version_idx == 2 {
        [0, 8, 16, 24, 32, 40, 48, 56, 64, 80, 96, 112, 128, 144, 160, 0]
    } else {
        return None;
    };
    assert(version_idx == 0 ==> t@ == l3_kbps_mpeg1());
    assert(version_idx != 0 ==> t@ == l3_kbps_mpeg2());
    if (br_index as usize) >= 16 {
        return None;
    }
    let v = t[br_index as usize];
    if v == 0 {
        None
    } else {
        Some(v)
    }
}

/// The sample rate in Hz for a version index and sample-rate index.
pub fn sample_rate_hz(version_idx: usize, sr_index: u8) -> (r: Option<u32>)
    ensures
        r == sample_rate_hz_spec(version_idx as int, sr_index as int),
{
    if sr_index >= 3 {
        return None;
    }
    let row: [u32; 3] = if version_idx == 0 {
        [44100, 48000, 32000]
    } else if version_idx == 1 {
        [22050, 24000, 16000]
    } else if version_idx == 2 {
        [11025, 12000, 8000]
    } else {
        return None;
    };
    assert(row@ == sample_rates()[version_idx as int]);
    Some(row[sr_index as usize])
}

proof fn lemma_l3_kbps_nonzero(v: int, br: int)
    requires
        0 <= v < 3,
        1 <= br < 15,
    ensures
        layer3_bitrate_kbps_spec(v, br) matches Some(k) && 8 <= k <= 320,
{
    assert(l3_kbps_mpeg1()[br] != 0 && 8 <= l3_kbps_mpeg1()[br] <= 320);
    assert(l3_kbps_mpeg2()[br] != 0 && 8 <= l3_kbps_mpeg2()[br] <= 320);
}

/// Whether the four bytes at `i` form a Layer III frame header; with its version
/// index and bit-rate index when they do.
fn header_at(buf: &[u8], i: usize) -> (r: Option<(usize, u8)>)
    requires
        i + 4 <= buf@.len(),
    ensures
        r is Some <==> l3_header_at(buf@, i as int),
        r matches Some(p) ==> p.0 == header_version_idx(be_u32(buf@, i as int)) && p.1
            == header_bitrate_index(be_u32(buf@, i as int)),
{
    let b0 = buf[i] as u32;
    let b1 = buf[i + 1] as u32;
    let b2 = buf[i + 2] as u32;
    let b3 = buf[i + 3] as u32;
    let h: u32 = (b0 << 24u32) | (b1 << 16u32) | (b2 << 8u32) | b3;
    assert(h == be_u32(buf@, i as int));
    if h >> 21u32 != 0x7ffu32 {
        return None;
    }
    let version_raw = (h >> 19u32) & 3u32;
    if version_raw == 1 {
        return None;
    }
    let v_idx: usize = if version_raw == 3 {
        0
    } else if version_raw == 2 {
        1
    } else {
        2
    };
    let layer_raw = (h >> 17u32) & 3u32;
    if layer_raw != 1 {
        return None;
    }
    let br = (h >> 12u32) & 0xfu32;
    assert(br < 16) by (bit_vector)
        requires
            br == (h >> 12u32) & 0xfu32,
    ;
    let br_index = br as u8;
    if br_index == 0 || br_index >= 15 {
        return None;
    }
    let sr = (h >> 10u32) & 3u32;
    assert(sr < 4) by (bit_vector)
        requires
            sr == (h >> 10u32) & 3u32,
    ;
    let sr_index = sr as u8;
    if sample_rate_hz(v_idx, sr_index).is_none() {
        return None;
    }
    Some((v_idx, br_index))
}

/// The offset of the first MPEG Layer III frame header of `buf` (after an ID3v2
/// tag, if any) and the bit rate of that frame in bit/s.
pub fn first_l3_frame_offset_and_bitrate_bps(buf: &[u8]) -> (r: Option<(usize, u32)>)
    ensures
        r matches Some(p) ==> first_l3_frame_spec(buf@) == Some((p.0 as int, p.1 as int)),
        r is None ==> first_l3_frame_spec(buf@) is None,
{
    let mut i: usize = match id3v2_skip_len(buf) {
        Some(n) => n,
        None => 0,
    };
    if i > buf.len() {
        i = buf.len();
    }
    assert(i == scan_start(buf@));
    while buf.len() >= 4 && i <= buf.len() - 4
        invariant
            scan_start(buf@) <= i <= buf@.len(),
            forall|j: int| scan_start(buf@) <= j < i ==> !l3_header_at(buf@, j),
        decreases buf.len() - i,
    {
        match header_at(buf, i) {
            None => {
                i = i + 1;
            },
            Some((v_idx, br_index)) => {
                proof {
                    lemma_l3_kbps_nonzero(v_idx as int, br_index as int);
                    lemma_first_frame_unique(buf@, i as int);
                }
                let kbps = match layer3_bitrate_kbps(v_idx, br_index) {
                    Some(k) => k,
                    None => {
                        return None;
                    },
                };
                let bps = kbps * 1000;
                return Some((i, bps));
            },
        }
    }
    proof {
        assert forall|j: int| !is_first_l3_frame(buf@, j) by {
            if is_first_l3_frame(buf@, j) {
                assert(j < i);
            }
        }
    }
    None
}

proof fn lemma_first_frame_unique(buf: Seq<u8>, i: int)
    requires
        is_first_l3_frame(buf, i),
    ensures
        first_l3_frame_spec(buf) == Some((i, header_bps(be_u32(buf, i)))),
{
    let c = choose|k: int| is_first_l3_frame(buf, k);
    assert(is_first_l3_frame(buf, c));
    if c < i {
        assert(!l3_header_at(buf, c));
    } else if c > i {
        assert(!l3_header_at(buf, i));
    }
}

/// The constant-bit-rate duration estimate in nanoseconds for a file of
/// `total_bytes` bytes that starts with `prefix`.
pub fn cbr_duration_from_total_size(prefix: &[u8], total_bytes: u64) -> (r: Option<u128>)
    ensures
        r matches Some(ns) ==> cbr_duration_spec(prefix@, total_bytes as int) == Some(ns as int),
        r is None ==> cbr_duration_spec(prefix@, total_bytes as int) is None,
{
    let (first_off, bitrate_bps) = match first_l3_frame_offset_and_bitrate_bps(prefix) {
        Some(p) => p,
        None => {
            return None;
        },
    };
    proof {
        let i = first_off as int;
        let h = be_u32(prefix@, i);
        lemma_l3_kbps_nonzero(header_version_idx(h), header_bitrate_index(h) as int);
    }
    if total_bytes <= first_off as u64 {
        return None;
    }
    let audio_bytes = total_bytes - first_off as u64;
    let bits_ns: u128 = (audio_bytes as u128) * 8 * 1_000_000_000;
    Some(bits_ns / (bitrate_bps as u128))
}

/// The duration estimate, given the outcome of `mp3-duration` on `prefix`: the
/// measured duration when it stopped before the end of the prefix (a Xing/Info
/// header) or when the prefix is the whole file; otherwise the constant-bit-rate
/// estimate from the total size, when known.
pub fn duration_after_probe(
    prefix: &[u8],
    total_file_bytes: Option<u64>,
    outcome: Option<(u64, u32, u64)>,
) -> (r: Option<u128>)
    ensures
        r matches Some(ns) ==> duration_after_probe_spec(prefix@, total_file_bytes, outcome)
            == Some(ns as int),
        r is None ==> duration_after_probe_spec(prefix@, total_file_bytes, outcome) is None,
{
    if prefix.len() == 0 {
        return None;
    }
    match outcome {
        Some((secs, nanos, consumed)) => {
            let ns: u128 = (secs as u128) * 1_000_000_000 + (nanos as u128);
            if (consumed as u128) < (prefix.len() as u128) {
                return Some(ns);
            }
            match total_file_bytes {
                Some(total) => {
                    if total > 0 && (total as u128) == (prefix.len() as u128) {
                        return Some(ns);
                    }
                    cbr_duration_from_total_size(prefix, total)
                },
                None => None,
            }
        },
        None => match total_file_bytes {
            Some(t) => cbr_duration_from_total_size(prefix, t),
            None => None,
        },
    }
}

/// The four bytes at `i`, big-endian.
fn read_be_u32(buf: &[u8], i: usize) -> (r: u32)
    requires
        i + 4 <= buf@.len(),
    ensures
        r == be_u32(buf@, i as int),
{
    let b0 = buf[i] as u32;
    let b1 = buf[i + 1] as u32;
    let b2 = buf[i + 2] as u32;
    let b3 = buf[i + 3] as u32;
    (b0 << 24u32) | (b1 << 16u32) | (b2 << 8u32) | b3
}

/// Whether a frame header at `j` is followed by a Xing/Info tag whose frame
/// count overflows `mp3-duration`'s arithmetic.
fn xing_overflow_at(buf: &[u8], j: usize) -> (r: bool)
    ensures
        r == oversized_xing_at(buf@, j as int),
{
    let len = buf.len();
    if j > len || len - j < 4 {
        return false;
    }
    let h = read_be_u32(buf, j);
    if !(h >> 21u32 == 0x7ffu32 && (h >> 19u32) & 3u32 != 1 && (h >> 17u32) & 3u32 != 0 && (h
        >> 10u32) & 3u32 != 3) {
        return false;
    }
    let mono = (h >> 6u32) & 3u32 == 3u32;
    let side: usize = if (h >> 19u32) & 3u32 == 3 {
        if mono {
            17
        } else {
            32
        }
    } else {
        if mono {
            9
        } else {
            17
        }
    };
    assert(side == side_info_len(h));
    if len - j - 4 < side || len - j - 4 - side < 12 {
        return false;
    }
    let x = j + 4 + side;
    let tag = (buf[x] == 0x58u8 && buf[x + 1] == 0x69u8 && buf[x + 2] == 0x6eu8 && buf[x + 3]
        == 0x67u8) || (buf[x] == 0x49u8 && buf[x + 1] == 0x6eu8 && buf[x + 2] == 0x66u8 && buf[x
        + 3] == 0x6fu8);
    if !tag || buf[x + 7] & 1u8 == 0u8 {
        return false;
    }
    let count = read_be_u32(buf, x + 8);
    let samples: u128 = if (h >> 17u32) & 3u32 == 3 {
        384
    } else if (h >> 17u32) & 3u32 == 2 {
        1152
    } else if (h >> 19u32) & 3u32 == 3 {
        1152
    } else {
        576
    };
    assert(samples == samples_per_frame(h));
    let c = count as u128;
    assert(c * samples <= 4294967295u128 * 1152) by (nonlinear_arith)
        requires
            c <= 4294967295u128,
            samples <= 1152,
    ;
    assert(c * samples * 1_000_000_000u128 <= 4294967295u128 * 1152 * 1_000_000_000u128) by (
    nonlinear_arith)
        requires
            c * samples <= 4294967295u128 * 1152,
    ;
    c * samples * 1_000_000_000u128 > 18446744073709551615u128
}

/// Whether `buf` holds a tag on which the arithmetic of `mp3-duration` overflows.
pub fn has_overflowing_tag(buf: &[u8]) -> (r: bool)
    ensures
        r == overflowing_tag(buf@),
{
    let len = buf.len();
    let mut j: usize = 0;
    while j < len
        invariant
            len == buf@.len(),
            j <= len,
            forall|k: int| 0 <= k < j ==> !oversized_xing_at(buf@, k) && !oversized_ape_at(buf@, k),
        decreases len - j,
    {
        if xing_overflow_at(buf, j) {
            return true;
        }
        if len - j >= 16 && buf[j] == 0x41u8 && buf[j + 1] == 0x50u8 && buf[j + 2] == 0x45u8
            && buf[j + 3] == 0x54u8 && buf[j + 4] == 0x41u8 && buf[j + 5] == 0x47u8 && buf[j + 6]
            == 0x45u8 && buf[j + 7] == 0x58u8 {
            let i = j + 12;
            let b0 = buf[i] as u32;
            let b1 = buf[i + 1] as u32;
            let b2 = buf[i + 2] as u32;
            let b3 = buf[i + 3] as u32;
            let size: u32 = (b3 << 24u32) | (b2 << 16u32) | (b1 << 8u32) | b0;
            assert(size == le_u32(buf@, i as int));
            if size as u64 + 16 > usize::MAX as u64 {
                assert(oversized_ape_at(buf@, j as int));
                return true;
            }
        }
        j = j + 1;
    }
    false
}

/// Estimates the duration of an MP3 file, in nanoseconds, from `prefix` (its first
/// bytes) and the size of the whole file when known. Bytes holding a tag on which
/// `mp3-duration` would overflow are not handed to it: the estimate is then the
/// constant-bit-rate one alone.
pub fn probe_duration_sec(prefix: &[u8], total_file_bytes: Option<u64>) -> (r: Option<u128>)
    ensures
        prefix@.len() == 0 ==> r is None,
        prefix@.len() > 0 && overflowing_tag(prefix@) ==> (r matches Some(ns)
            ==> duration_after_probe_spec(prefix@, total_file_bytes, None) == Some(ns as int)),
        prefix@.len() > 0 && overflowing_tag(prefix@) ==> (r is None ==> duration_after_probe_spec(
            prefix@,
            total_file_bytes,
            None,
        ) is None),
        prefix@.len() > 0 && !overflowing_tag(prefix@) ==> (r matches Some(ns)
            ==> duration_after_probe_spec(
            prefix@,
            total_file_bytes,
            mp3_duration_outcome(prefix@),
        ) == Some(ns as int)),
        prefix@.len() > 0 && !overflowing_tag(prefix@) ==> (r is None
            ==> duration_after_probe_spec(
            prefix@,
            total_file_bytes,
            mp3_duration_outcome(prefix@),
        ) is None),
{
    if prefix.len() == 0 {
        return None;
    }
    if has_overflowing_tag(prefix) {
        return duration_after_probe(prefix, total_file_bytes, None);
    }
    let outcome = mp3_duration_of(prefix);
    duration_after_probe(prefix, total_file_bytes, outcome)
}

/// The first frame found is a Layer III frame header, and never lies inside a
/// leading ID3v2 tag: when `buf` starts with `ID3` and a full 10-byte tag
/// header, the frame starts at or after the end of the tag (header, body of the
/// syncsafe size, and footer when flagged).
pub proof fn lemma_first_frame_after_id3_tag(buf: Seq<u8>)
    ensures
        first_l3_frame_spec(buf) matches Some(f) ==> l3_header_at(buf, f.0),
        first_l3_frame_spec(buf) matches Some(f) ==> f.1 == header_bps(be_u32(buf, f.0)),
        first_l3_frame_spec(buf) matches Some(f) ==> (buf.len() >= 10 && buf[0] == 0x49u8 && buf[1]
            == 0x44u8 && buf[2] == 0x33u8 ==> f.0 >= 10 + (((buf[9] as usize) | ((buf[8] as usize)
            << 7usize) | ((buf[7] as usize) << 14usize) | ((buf[6] as usize) << 21usize)) as int) + (
        if buf[5] & 0x10u8 != 0 {
            10int
        } else {
            0int
        })),
{
    if exists|i: int| is_first_l3_frame(buf, i) {
        let i = choose|i: int| is_first_l3_frame(buf, i);
        assert(is_first_l3_frame(buf, i));
        lemma_first_frame_unique(buf, i);
    }
}

/// The bit rate of a Layer III frame header is positive.
proof fn lemma_header_bps_positive(buf: Seq<u8>, i: int)
    requires
        l3_header_at(buf, i),
    ensures
        header_bps(be_u32(buf, i)) >= 8000,
{
    let h = be_u32(buf, i);
    let v = header_version_idx(h);
    let br = header_bitrate_index(h) as int;
    lemma_l3_kbps_nonzero(v, br);
}

/// The constant-bit-rate estimate counts only the bytes from the first frame on:
/// for a first frame at `f` with bit rate `b`, the estimate `ns` is the whole
/// nanoseconds that the `total - f` bytes last, `ns * b <= (total - f) * 8 * 10^9
/// < (ns + 1) * b`; there is none when no byte follows `f`. So two files whose
/// first frames have the same bit rate and the same number of bytes from that
/// frame on get the same estimate, however long the tags in front of them.
pub proof fn lemma_cbr_counts_only_audio(p1: Seq<u8>, t1: int, p2: Seq<u8>, t2: int)
    ensures
        first_l3_frame_spec(p1) matches Some(f) ==> (t1 - f.0 <= 0 <==> cbr_duration_spec(p1, t1) is None),
        first_l3_frame_spec(p1) matches Some(f) ==> (cbr_duration_spec(p1, t1) matches Some(ns) ==> (
        ns * f.1 <= (t1 - f.0) * 8 * 1_000_000_000 && (t1 - f.0) * 8 * 1_000_000_000 < (ns + 1)
            * f.1)),
        first_l3_frame_spec(p1) matches Some(f1) ==> (first_l3_frame_spec(p2) matches Some(f2) ==> (
        f1.1 == f2.1 && t1 - f1.0 == t2 - f2.0 ==> cbr_duration_spec(p1, t1) == cbr_duration_spec(
            p2,
            t2,
        ))),
{
    lemma_first_frame_after_id3_tag(p1);
    if let Some(f) = first_l3_frame_spec(p1) {
        lemma_header_bps_positive(p1, f.0);
        let x = (t1 - f.0) * 8 * 1_000_000_000;
        let b = f.1;
        if t1 - f.0 > 0 {
            let ns = x / b;
            assert(ns * b <= x && x < (ns + 1) * b) by (nonlinear_arith)
                requires
                    b > 0,
                    ns == x / b,
            ;
        }
    }
}

} // verus!
