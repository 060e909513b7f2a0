//! The server's HTTP interface: the addresses of its resources, and how its
//! answers are judged before their bodies are used.
//!
//! Sending the requests and decoding JSON stays with the caller; the functions
//! here build what goes out and decide on what came back.

use vstd::prelude::*;
use crate::text::{
    append, chars_of, find_char, find_from, i64_decimal, int_decimal, nat_decimal, parse_u64,
    parse_u64_spec, slice_of, string_of, trim, trim_bounds, trim_end_char, trim_end_char_spec,
    trim_spec, u64_decimal,
};

verus! {

/// The largest body accepted for one download of a whole music file.
pub const MAX_MUSIC_DOWNLOAD_BYTES: u64 = 536870912;

/// A list answer of the server: the payload sits under `data`.
pub struct ApiEnvelope<T> {
    pub data: T,
}

/// One song of the server's catalogue.
pub struct MusicItem {
    pub id: i64,
    pub author: String,
    pub name: String,
}

impl MusicItem {
    /// A copy of the song.
    pub fn duplicate(&self) -> (r: MusicItem)
        ensures
            r == *self,
    {
        MusicItem { id: self.id, author: self.author.clone(), name: self.name.clone() }
    }
}

/// What the server says about the application.
pub struct AppInfo {
    pub id: i64,
    pub announcement: String,
    pub app_version: String,
    pub app_download_link: String,
    pub app_version_description: String,
}

// ---------------------------------------------------------------------------
// Addresses
// ---------------------------------------------------------------------------

/// The server address built into the program, without surrounding white space; an
/// empty address when none was built in.
pub fn resolve_base_url(embedded: Option<&str>) -> (r: String)
    ensures
        embedded matches Some(s) ==> r@ == trim_spec(s@),
        embedded is None ==> r@ == Seq::<char>::empty(),
{
    match embedded {
        Some(s) => {
            let c = chars_of(s);
            let t = trim(&c);
            string_of(&t)
        },
        None => String::new(),
    }
}

/// The address of a song's resource `file` under `/music/{id}/`: the base without
/// its trailing slashes, then `/music/`, the id, `/` and the file name.
pub open spec fn music_resource_spec(base: Seq<char>, music_id: i64, file: Seq<char>) -> Seq<
    char,
> {
    trim_end_char_spec(base, '/') + "/music/"@ + int_decimal(music_id as int) + "/"@ + file
}

fn music_resource(base: &str, music_id: i64, file: &str) -> (r: String)
    ensures
        r@ == music_resource_spec(base@, music_id, file@),
{
    let b = chars_of(base);
    let mut v = trim_end_char(&b, '/');
    append(&mut v, &chars_of("/music/"));
    append(&mut v, &i64_decimal(music_id));
    append(&mut v, &chars_of("/"));
    append(&mut v, &chars_of(file));
    string_of(&v)
}

/// The address of a song's cover picture (`…/music/{id}/music.jpg`).
pub fn music_cover_jpeg_url(base: &str, music_id: i64) -> (r: String)
    ensures
        r@ == music_resource_spec(base@, music_id, "music.jpg"@),
{
    music_resource(base, music_id, "music.jpg")
}

/// The address of a song's audio (`…/music/{id}/music.mp3`).
pub fn music_mp3_url(base: &str, music_id: i64) -> (r: String)
    ensures
        r@ == music_resource_spec(base@, music_id, "music.mp3"@),
{
    music_resource(base, music_id, "music.mp3")
}

/// `base` followed by `tail`.
fn joined(base: &str, tail: &str) -> (r: String)
    ensures
        r@ == base@ + tail@,
{
    let mut v = chars_of(base);
    append(&mut v, &chars_of(tail));
    string_of(&v)
}

/// The address of the catalogue (`{base}/v3/music`).
pub fn music_list_url(base: &str) -> (r: String)
    ensures
        r@ == base@ + "/v3/music"@,
{
    joined(base, "/v3/music")
}

/// The address of the application information (`{base}/v3/app`).
pub fn app_info_url(base: &str) -> (r: String)
    ensures
        r@ == base@ + "/v3/app"@,
{
    joined(base, "/v3/app")
}

/// `{base}/v3/music/{id}/{what}`.
fn music_api_url(base: &str, music_id: i64, what: &str) -> (r: String)
    ensures
        r@ == base@ + "/v3/music/"@ + int_decimal(music_id as int) + "/"@ + what@,
{
    let mut v = chars_of(base);
    append(&mut v, &chars_of("/v3/music/"));
    append(&mut v, &i64_decimal(music_id));
    append(&mut v, &chars_of("/"));
    append(&mut v, &chars_of(what));
    string_of(&v)
}

/// The address of a song's lyrics (`{base}/v3/music/{id}/lyrics`).
pub fn music_lyrics_url(base: &str, music_id: i64) -> (r: String)
    ensures
        r@ == base@ + "/v3/music/"@ + int_decimal(music_id as int) + "/"@ + "lyrics"@,
{
    music_api_url(base, music_id, "lyrics")
}

/// The address of a song's key notation (`{base}/v3/music/{id}/notation`).
pub fn music_notation_url(base: &str, music_id: i64) -> (r: String)
    ensures
        r@ == base@ + "/v3/music/"@ + int_decimal(music_id as int) + "/"@ + "notation"@,
{
    music_api_url(base, music_id, "notation")
}

// ---------------------------------------------------------------------------
// Judging answers
// ---------------------------------------------------------------------------

/// A 4xx or 5xx status.
pub open spec fn is_error_status_spec(status: u16) -> bool {
    400 <= status <= 599
}

/// Whether `status` is a client error or a server error.
pub fn is_error_status(status: u16) -> (r: bool)
    ensures
        r == is_error_status_spec(status),
{
    400 <= status && status <= 599
}

/// `prefix` followed by the status code.
fn status_message(prefix: &str, status: u16) -> (r: Vec<char>)
    ensures
        r@ == prefix@ + nat_decimal(status as nat),
{
    let mut v = chars_of(prefix);
    append(&mut v, &u64_decimal(status as u64));
    v
}

/// The first `n` characters of `s` (all of them when it is shorter).
pub open spec fn first_chars(s: Seq<char>, n: int) -> Seq<char> {
    if s.len() <= n {
        s
    } else {
        s.subrange(0, n)
    }
}

/// The verdict on a JSON answer before its body is decoded: an error status gives
/// `HTTP {status}: ` and the first 160 characters of the body.
pub fn check_json_response(status: u16, body: &str) -> (r: Result<(), String>)
    ensures
        !is_error_status_spec(status) ==> r is Ok,
        is_error_status_spec(status) ==> (r matches Err(m) && m@ == "HTTP "@ + nat_decimal(
            status as nat,
        ) + ": "@ + first_chars(body@, 160)),
{
    if !is_error_status(status) {
        return Ok(());
    }
    let mut v = status_message("HTTP ", status);
    append(&mut v, &chars_of(": "));
    let b = chars_of(body);
    let n: usize = if b.len() <= 160 {
        b.len()
    } else {
        160
    };
    let head = slice_of(&b, 0, n);
    assert(b@.len() <= 160 ==> b@.subrange(0, n as int) =~= b@);
    append(&mut v, &head);
    Err(string_of(&v))
}

/// The verdict on a download before its body is read: an error status gives
/// `HTTP {status}`.
pub fn check_bytes_response(status: u16) -> (r: Result<(), String>)
    ensures
        !is_error_status_spec(status) ==> r is Ok,
        is_error_status_spec(status) ==> (r matches Err(m) && m@ == "HTTP "@ + nat_decimal(
            status as nat,
        )),
{
    if !is_error_status(status) {
        return Ok(());
    }
    Err(string_of(&status_message("HTTP ", status)))
}

/// A length header: its trimmed text read as a `u64`.
pub open spec fn length_header_spec(value: Option<Seq<char>>) -> Option<u64> {
    match value {
        Some(v) => match parse_u64_spec(trim_spec(v)) {
            Some(n) => Some(n as u64),
            None => None,
        },
        None => None,
    }
}

/// A length header's value as a number: trimmed, then read as a `u64`.
pub fn parse_length_header(value: Option<&str>) -> (r: Option<u64>)
    ensures
        r == length_header_spec(match value {
            Some(v) => Some(v@),
            None => None,
        }),
{
    match value {
        None => None,
        Some(v) => {
            let c = chars_of(v);
            let t = trim(&c);
            assert(t@.subrange(0, t@.len() as int) =~= t@);
            parse_u64(&t, 0, t.len())
        },
    }
}

/// The size of a resource from the answer to a `HEAD` request: an error status
/// gives `HEAD HTTP {status}`; otherwise the `Content-Length` header read as a
/// number, when it is present and is one.
pub fn head_content_length(status: u16, content_length: Option<&str>) -> (r: Result<
    Option<u64>,
    String,
>)
    ensures
        is_error_status_spec(status) ==> (r matches Err(m) && m@ == "HEAD HTTP "@ + nat_decimal(
            status as nat,
        )),
        !is_error_status_spec(status) ==> r == Ok::<Option<u64>, String>(
            length_header_spec(
                match content_length {
                    Some(v) => Some(v@),
                    None => None,
                },
            ),
        ),
{
    if is_error_status(status) {
        return Err(string_of(&status_message("HEAD HTTP ", status)));
    }
    Ok(parse_length_header(content_length))
}

/// The total size in a `Content-Range` value such as `bytes 0-99/1234`: the text
/// after the first `/` of what follows `bytes `, read as a number; an unknown
/// size (`*`) gives none.
pub open spec fn content_range_total_spec(value: Seq<char>) -> Option<u64> {
    let t = trim_spec(value);
    let p = "bytes "@;
    if t.len() < p.len() || t.subrange(0, p.len() as int) != p {
        None
    } else {
        let rest = t.subrange(p.len() as int, t.len() as int);
        match find_from(rest, 0, '/') {
            None => None,
            Some(i) => {
                let total = rest.subrange(i + 1, rest.len() as int);
                if total == seq!['*'] {
                    None
                } else {
                    match parse_u64_spec(trim_spec(total)) {
                        Some(n) => Some(n as u64),
                        None => None,
                    }
                }
            },
        }
    }
}

/// The total size that a `Content-Range` header states.
pub fn parse_content_range_total(value: &str) -> (r: Option<u64>)
    ensures
        r == content_range_total_spec(value@),
{
    let c = chars_of(value);
    let t = trim(&c);
    let p = chars_of("bytes ");
    proof {
        reveal_strlit("bytes ");
    }
    if t.len() < p.len() {
        return None;
    }
    let head = slice_of(&t, 0, p.len());
    if !crate::text::chars_eq(&head, &p) {
        return None;
    }
    let rest = slice_of(&t, p.len(), t.len());
    match find_char(&rest, 0, '/') {
        None => None,
        Some(i) => {
            let total = slice_of(&rest, i + 1, rest.len());
            if total.len() == 1 && total[0] == '*' {
                assert(total@ =~= seq!['*']);
                return None;
            }
            assert(total@.len() != 1 || total@[0] != '*' ==> total@ != seq!['*']);
            let tt = trim(&total);
            assert(tt@.subrange(0, tt@.len() as int) =~= tt@);
            parse_u64(&tt, 0, tt.len())
        },
    }
}

/// The total size of a resource from a ranged answer: the `Content-Range` total
/// when there is one, else the `Content-Length` value.
pub fn ranged_total(content_range: Option<&str>, content_length: Option<&str>) -> (r: Option<u64>)
    ensures
        r == (match content_range {
            Some(v) => match content_range_total_spec(v@) {
                Some(t) => Some(t),
                None => length_header_spec(
                    match content_length {
                        Some(l) => Some(l@),
                        None => None,
                    },
                ),
            },
            None => length_header_spec(
                match content_length {
                    Some(l) => Some(l@),
                    None => None,
                },
            ),
        }),
{
    let from_range = match content_range {
        Some(v) => parse_content_range_total(v),
        None => None,
    };
    match from_range {
        Some(t) => Some(t),
        None => parse_length_header(content_length),
    }
}

/// The `Range` header value asking for the first `max_bytes` bytes
/// (`bytes=0-{max_bytes - 1}`, and `bytes=0-0` for none).
pub fn prefix_range_header(max_bytes: u64) -> (r: String)
    ensures
        r@ == "bytes=0-"@ + nat_decimal(if max_bytes == 0 {
            0
        } else {
            (max_bytes - 1) as nat
        }),
{
    let last: u64 = if max_bytes == 0 {
        0
    } else {
        max_bytes - 1
    };
    let mut v = chars_of("bytes=0-");
    append(&mut v, &u64_decimal(last));
    string_of(&v)
}

/// The `Range` header value asking for everything from `start_byte` on
/// (`bytes={start_byte}-`).
pub fn remainder_range_header(start_byte: u64) -> (r: String)
    ensures
        r@ == "bytes="@ + nat_decimal(start_byte as nat) + "-"@,
{
    let mut v = chars_of("bytes=");
    append(&mut v, &u64_decimal(start_byte));
    append(&mut v, &chars_of("-"));
    string_of(&v)
}

/// Whether the rest of a file still has to be fetched: not when the known total
/// is already reached.
pub fn remainder_needed(start_byte: u64, total_bytes: Option<u64>) -> (r: bool)
    ensures
        r == !(total_bytes matches Some(t) && start_byte >= t),
{
    match total_bytes {
        Some(t) => start_byte < t,
        None => true,
    }
}

/// The decision after `written` bytes of the rest of a file were appended in one
/// more chunk of `n` bytes.
pub enum RemainderStep {
    /// Read the next chunk.
    Continue,
    /// The file is complete.
    Done,
    /// The download passed the size limit.
    TooLarge,
}

/// What to do after a chunk: stop when the stream ended (`n == 0`) or the expected
/// rest (`total - start`) is written; fail when more than the limit was written.
pub fn remainder_step(n: u64, written: u64, start_byte: u64, total_bytes: Option<u64>) -> (r:
    RemainderStep)
    ensures
        n == 0 ==> r is Done,
        n > 0 && (total_bytes matches Some(t) && written >= (if t >= start_byte {
            t - start_byte
        } else {
            0
        })) ==> r is Done,
        n > 0 && !(total_bytes matches Some(t) && written >= (if t >= start_byte {
            t - start_byte
        } else {
            0
        })) && written > MAX_MUSIC_DOWNLOAD_BYTES ==> r is TooLarge,
        n > 0 && !(total_bytes matches Some(t) && written >= (if t >= start_byte {
            t - start_byte
        } else {
            0
        })) && written <= MAX_MUSIC_DOWNLOAD_BYTES ==> r is Continue,
{
    if n == 0 {
        return RemainderStep::Done;
    }
    match total_bytes {
        Some(t) => {
            let limit = if t >= start_byte {
                t - start_byte
            } else {
                0
            };
            if written >= limit {
                return RemainderStep::Done;
            }
        },
        None => {},
    }
    if written > MAX_MUSIC_DOWNLOAD_BYTES {
        RemainderStep::TooLarge
    } else {
        RemainderStep::Continue
    }
}

/// Whether downloaded cover bytes are kept: a JPEG start (`FF D8`) and at least
/// three bytes.
pub fn cover_bytes_accepted(bytes: &[u8]) -> (r: bool)
    ensures
        r == (bytes@.len() >= 3 && bytes@[0] == 0xffu8 && bytes@[1] == 0xd8u8),
{
    bytes.len() >= 3 && bytes[0] == 0xffu8 && bytes[1] == 0xd8u8
}

} // verus!
