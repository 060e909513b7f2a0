//! The local settings file: a small INI text with one key, `loadByAdministrator`.
//!
//! Reading and writing the file stays with the caller; this module turns the text
//! into settings and back.

use vstd::prelude::*;
use crate::text::{
    append, chars_eq, chars_of, find_char, find_from, lines, lines_from, lines_spec, slice_of,
    string_of, strip_cr, trim, lemma_find_from_at, lemma_trim_noop, trim_end_spec, trim_spec, trim_start_spec,
};

verus! {

/// The settings of the application.
#[derive(Clone, Copy, Debug, PartialEq, Eq, Structural)]
pub struct AppConfig {
    /// Whether the next start asks for administrator rights (Windows).
    pub launch_as_administrator: bool,
}

impl Default for AppConfig {
    fn default() -> (r: Self)
        ensures
            r.launch_as_administrator == false,
    {
        AppConfig { launch_as_administrator: false }
    }
}

/// The name of the settings file inside the settings directory.
pub const CONFIG_FILE: &'static str = "config.ini";

// ---------------------------------------------------------------------------
// Specification
// ---------------------------------------------------------------------------

/// The key that holds `launch_as_administrator`.
pub open spec fn admin_key() -> Seq<char> {
    seq![
        'l', 'o', 'a', 'd', 'B', 'y', 'A', 'd', 'm', 'i', 'n', 'i', 's', 't', 'r', 'a', 't', 'o',
        'r',
    ]
}

/// The comment line that starts a written settings file.
pub open spec fn header_comment() -> Seq<char> {
    seq![';', ' ', '一', '梦', '音', '乐', '播', '放', '器', '本', '地', '配', '置']
}

pub open spec fn crlf() -> Seq<char> {
    seq!['\r', '\n']
}

pub open spec fn bool_text(b: bool) -> Seq<char> {
    if b {
        seq!['t', 'r', 'u', 'e']
    } else {
        seq!['f', 'a', 'l', 's', 'e']
    }
}

/// `s` without one leading byte-order mark.
pub open spec fn strip_bom_spec(s: Seq<char>) -> Seq<char> {
    if s.len() > 0 && s[0] == '\u{feff}' {
        s.drop_first()
    } else {
        s
    }
}

pub open spec fn ascii_lower_char(c: char) -> char {
    if 'A' <= c && c <= 'Z' {
        ((c as u32) + 32) as char
    } else {
        c
    }
}

/// `s` with ASCII capitals made small (`str::to_ascii_lowercase`).
pub open spec fn ascii_lower(s: Seq<char>) -> Seq<char> {
    s.map_values(|c: char| ascii_lower_char(c))
}

/// `true`, `1`, `yes` and `false`, `0`, `no`, in any ASCII case and with white space
/// around them.
pub open spec fn parse_bool_spec(value: Seq<char>) -> Option<bool> {
    let v = ascii_lower(trim_spec(value));
    if v == seq!['t', 'r', 'u', 'e'] || v == seq!['1'] || v == seq!['y', 'e', 's'] {
        Some(true)
    } else if v == seq!['f', 'a', 'l', 's', 'e'] || v == seq!['0'] || v == seq!['n', 'o'] {
        Some(false)
    } else {
        None
    }
}

/// The value that one line of the file sets, if it sets the key: a line that is
/// not blank and not a comment (`#` or `;`), of the form `key=value`, whose key is
/// `loadByAdministrator` and whose value is a boolean.
pub open spec fn ini_line_value(line: Seq<char>) -> Option<bool> {
    let l = trim_spec(line);
    if l.len() == 0 || l[0] == '#' || l[0] == ';' {
        None
    } else {
        match find_from(l, 0, '=') {
            None => None,
            Some(e) => if strip_bom_spec(trim_spec(l.subrange(0, e))) == admin_key() {
                parse_bool_spec(l.subrange(e + 1, l.len() as int))
            } else {
                None
            },
        }
    }
}

/// The setting after the lines `ls`: the last line that sets the key wins; `false`
/// when none does.
pub open spec fn ini_of_lines(ls: Seq<Seq<char>>) -> bool
    decreases ls.len(),
{
    if ls.len() == 0 {
        false
    } else {
        match ini_line_value(ls.last()) {
            Some(v) => v,
            None => ini_of_lines(ls.drop_last()),
        }
    }
}

/// The settings that a file's text holds.
pub open spec fn parse_ini_spec(content: Seq<char>) -> AppConfig {
    AppConfig { launch_as_administrator: ini_of_lines(lines_spec(strip_bom_spec(content))) }
}

/// The text written for the settings `c`.
pub open spec fn format_ini_spec(c: AppConfig) -> Seq<char> {
    header_comment() + crlf() + admin_key() + seq!['='] + bool_text(c.launch_as_administrator)
        + crlf()
}

// ---------------------------------------------------------------------------
// Implementation
// ---------------------------------------------------------------------------

/// `s` without one leading byte-order mark.
fn strip_bom(s: &[char]) -> (r: Vec<char>)
    ensures
        r@ == strip_bom_spec(s@),
{
    if s.len() > 0 && s[0] == '\u{feff}' {
        slice_of(s, 1, s.len())
    } else {
        let r = slice_of(s, 0, s.len());
        assert(s@.subrange(0, s@.len() as int) =~= s@);
        r
    }
}

/// `s` with ASCII capitals made small.
fn to_ascii_lower(s: &[char]) -> (r: Vec<char>)
    ensures
        r@ == ascii_lower(s@),
{
    let mut r: Vec<char> = Vec::new();
    let mut i: usize = 0;
    while i < s.len()
        invariant
            i <= s@.len(),
            r@ == ascii_lower(s@.subrange(0, i as int)),
        decreases s.len() - i,
    {
        let c = s[i];
        let lc = if 'A' <= c && c <= 'Z' {
            ((c as u8) + 32) as char
        } else {
            c
        };
        r.push(lc);
        i = i + 1;
        assert(r@ =~= ascii_lower(s@.subrange(0, i as int)));
    }
    assert(s@.subrange(0, s@.len() as int) =~= s@);
    r
}

/// Whether `v` holds exactly the characters of `lit`.
fn is_text(v: &[char], lit: &str) -> (r: bool)
    ensures
        r == (v@ == lit@),
{
    let l = chars_of(lit);
    chars_eq(v, &l)
}

/// Reads a boolean setting value.
pub fn parse_bool(value: &[char]) -> (r: Option<bool>)
    ensures
        r == parse_bool_spec(value@),
{
    let t = trim(value);
    let v = to_ascii_lower(&t);
    proof {
        reveal_strlit("true");
        reveal_strlit("1");
        reveal_strlit("yes");
        reveal_strlit("false");
        reveal_strlit("0");
        reveal_strlit("no");
        assert("true"@ =~= seq!['t', 'r', 'u', 'e']);
        assert("1"@ =~= seq!['1']);
        assert("yes"@ =~= seq!['y', 'e', 's']);
        assert("false"@ =~= seq!['f', 'a', 'l', 's', 'e']);
        assert("0"@ =~= seq!['0']);
        assert("no"@ =~= seq!['n', 'o']);
    }
    if is_text(&v, "true") || is_text(&v, "1") || is_text(&v, "yes") {
        Some(true)
    } else if is_text(&v, "false") || is_text(&v, "0") || is_text(&v, "no") {
        Some(false)
    } else {
        None
    }
}

/// The value that one line sets, if it sets the key.
fn ini_line(line: &[char]) -> (r: Option<bool>)
    ensures
        r == ini_line_value(line@),
{
    let l = trim(line);
    if l.len() == 0 || l[0] == '#' || l[0] == ';' {
        return None;
    }
    match find_char(&l, 0, '=') {
        None => None,
        Some(e) => {
            let key_part = slice_of(&l, 0, e);
            let key = strip_bom(&trim(&key_part));
            proof {
                reveal_strlit("loadByAdministrator");
                assert("loadByAdministrator"@ =~= admin_key());
            }
            if is_text(&key, "loadByAdministrator") {
                let value = slice_of(&l, e + 1, l.len());
                parse_bool(&value)
            } else {
                None
            }
        },
    }
}

/// The settings that the text of a settings file holds: for the key
/// `loadByAdministrator`, the last line that gives it a boolean value wins;
/// `false` when no line does.
pub fn parse_ini(content: &str) -> (r: AppConfig)
    ensures
        r == parse_ini_spec(content@),
{
    let all = chars_of(content);
    let body = strip_bom(&all);
    let ls = lines(&body);
    let ghost lsv = lines_spec(strip_bom_spec(content@));
    let mut value = false;
    let mut k: usize = 0;
    assert(lsv.take(0) =~= Seq::<Seq<char>>::empty());
    while k < ls.len()
        invariant
            ls@.len() == lsv.len(),
            forall|j: int| 0 <= j < ls@.len() ==> #[trigger] ls@[j]@ == lsv[j],
            k <= ls@.len(),
            value == ini_of_lines(lsv.take(k as int)),
        decreases ls.len() - k,
    {
        assert(lsv.take(k + 1).drop_last() =~= lsv.take(k as int));
        assert(lsv.take(k + 1).last() == ls@[k as int]@);
        match ini_line(&ls[k]) {
            Some(v) => {
                value = v;
            },
            None => {},
        }
        k = k + 1;
    }
    assert(lsv.take(lsv.len() as int) =~= lsv);
    AppConfig { launch_as_administrator: value }
}

/// The text written for the settings `config`: a comment line, then
/// `loadByAdministrator=true` or `=false`, each line ended by `\r\n`.
pub fn format_ini(config: &AppConfig) -> (r: String)
    ensures
        r@ == format_ini_spec(*config),
{
    let mut v = chars_of("; 一梦音乐播放器本地配置\r\nloadByAdministrator=");
    let tail = if config.launch_as_administrator {
        chars_of("true\r\n")
    } else {
        chars_of("false\r\n")
    };
    append(&mut v, &tail);
    proof {
        reveal_strlit("; 一梦音乐播放器本地配置\r\nloadByAdministrator=");
        reveal_strlit("true\r\n");
        reveal_strlit("false\r\n");
        assert(v@ =~= format_ini_spec(*config));
    }
    string_of(&v)
}

// ---------------------------------------------------------------------------
// Laws
// ---------------------------------------------------------------------------

proof fn lemma_written_lines(b: bool)
    ensures
        lines_spec(format_ini_spec(AppConfig { launch_as_administrator: b })) =~= seq![
            header_comment(),
            admin_key() + seq!['='] + bool_text(b),
        ],
{
    let kv = admin_key() + seq!['='] + bool_text(b);
    let s = format_ini_spec(AppConfig { launch_as_administrator: b });
    let n = s.len() as int;
    assert(s =~= header_comment() + crlf() + kv + crlf());
    assert forall|j: int| 0 <= j < 14 implies s[j] != '\n' by {
        assert(s[j] == (header_comment() + seq!['\r'])[j]);
    }
    lemma_find_from_at(s, 0, 14, '\n');
    assert(s.subrange(0, 14) =~= header_comment() + seq!['\r']);
    assert(strip_cr(s.subrange(0, 14)) =~= header_comment());
    assert forall|j: int| 15 <= j < n - 1 implies s[j] != '\n' by {
        assert(s[j] == (kv + seq!['\r'])[j - 15]);
    }
    lemma_find_from_at(s, 15, n - 1, '\n');
    assert(s.subrange(15, n - 1) =~= kv + seq!['\r']);
    assert(strip_cr(s.subrange(15, n - 1)) =~= kv);
    assert(lines_from(s, n) =~= Seq::<Seq<char>>::empty());
    assert(lines_from(s, 15) =~= seq![kv]);
}

proof fn lemma_key_line(b: bool)
    ensures
        ini_line_value(admin_key() + seq!['='] + bool_text(b)) == Some(b),
{
    let kv = admin_key() + seq!['='] + bool_text(b);
    lemma_trim_noop(kv);
    assert forall|j: int| 0 <= j < 19 implies kv[j] != '=' by {
        assert(kv[j] == admin_key()[j]);
    }
    lemma_find_from_at(kv, 0, 19, '=');
    assert(kv.subrange(0, 19) =~= admin_key());
    lemma_trim_noop(admin_key());
    assert(strip_bom_spec(admin_key()) == admin_key());
    assert(kv.subrange(20, kv.len() as int) =~= bool_text(b));
    lemma_trim_noop(bool_text(b));
    assert(ascii_lower(bool_text(b)) =~= bool_text(b));
}

/// Reading back what was written gives the same settings.
pub proof fn lemma_format_parse_roundtrip(c: AppConfig)
    ensures
        parse_ini_spec(format_ini_spec(c)) == c,
{
    let b = c.launch_as_administrator;
    let s = format_ini_spec(c);
    assert(strip_bom_spec(s) == s);
    lemma_written_lines(b);
    lemma_key_line(b);
    let ls = lines_spec(s);
    assert(ls.last() == admin_key() + seq!['='] + bool_text(b));
}

} // verus!
