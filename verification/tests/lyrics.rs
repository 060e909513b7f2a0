use clx_music::lyrics::{lyric_index_at_time, parse_lrc_text, strip_tags, LyricLine};

/// A playback position in seconds as whole hundredths (what the lyric times use).
fn centis(secs: f64) -> i64 {
    (secs * 100.0).floor() as i64
}

fn chars(s: &str) -> Vec<char> {
    s.chars().collect()
}

fn line(time_cs: i64, content: &str) -> LyricLine {
    LyricLine { time_cs, content: content.to_string() }
}

#[test]
fn parse_lrc_basic() {
    let lines = parse_lrc_text("[00:01.00]hello\n[00:02.00]world");
    assert_eq!(lines.len(), 2);
    assert!((lines[0].time_cs as f64 / 100.0 - 1.0).abs() < f64::EPSILON);
    assert_eq!(lines[0].content, "hello");
}

#[test]
fn lyric_index_at_time_picks_active_line() {
    let lines = parse_lrc_text("[00:00.00]a\n[00:05.00]b\n[00:10.00]c");
    assert_eq!(lyric_index_at_time(&lines, centis(5.5)), Some(1));
}

#[test]
fn tag_time_counts_minutes_seconds_hundredths() {
    let lines = parse_lrc_text("[01:02.50]x");
    assert_eq!(lines.len(), 1);
    assert_eq!(lines[0].time_cs, 6250);
}

#[test]
fn tag_fraction_is_read_as_hundredths_whatever_its_length() {
    let lines = parse_lrc_text("[00:01.5]a\n[00:01.123]b\n[00:02]c");
    let times: Vec<i64> = lines.iter().map(|l| l.time_cs).collect();
    assert_eq!(times, vec![105, 223, 200]);
}

#[test]
fn bad_fraction_counts_as_zero() {
    let lines = parse_lrc_text("[00:03.xy]a");
    assert_eq!(lines.len(), 1);
    assert_eq!(lines[0].time_cs, 300);
}

#[test]
fn one_entry_per_tag_in_line_order() {
    let lines = parse_lrc_text("[00:10.00][00:01.00]chorus\n[00:05.00]verse");
    let got: Vec<(i64, String)> = lines.iter().map(|l| (l.time_cs, l.content.clone())).collect();
    assert_eq!(
        got,
        vec![
            (1000, "chorus".to_string()),
            (100, "chorus".to_string()),
            (500, "verse".to_string())
        ]
    );
}

#[test]
fn lines_without_text_or_tags_give_nothing() {
    let lines = parse_lrc_text("[ti:Song]\n[00:01.00]\n[00:02.00]   \nplain text\n\n[00:03.00]ok");
    assert_eq!(lines.len(), 1);
    assert_eq!(lines[0].time_cs, 300);
    assert_eq!(lines[0].content, "ok");
}

#[test]
fn metadata_bracket_keeps_text_but_gives_no_time() {
    // The first bracket is not a time: the text keeps all brackets, and only the
    // time tag gives an entry.
    let lines = parse_lrc_text("[ar:Me][00:04.00]text");
    assert_eq!(lines.len(), 1);
    assert_eq!(lines[0].time_cs, 400);
    assert_eq!(lines[0].content, "[ar:Me][00:04.00]text");
}

#[test]
fn carriage_returns_and_white_space_are_trimmed() {
    let lines = parse_lrc_text("[00:01.00]  hi there \r\n[00:02.00]\tbye\u{3000}\r\n");
    assert_eq!(lines.len(), 2);
    assert_eq!(lines[0].content, "hi there");
    assert_eq!(lines[1].content, "bye");
    assert_eq!(lines[1].time_cs, 200);
}

#[test]
fn signed_and_large_fields() {
    let lines = parse_lrc_text("[-1:+5.-5]neg\n[99999999:00.00]far");
    assert_eq!(lines[0].time_cs, (-60 + 5) * 100 - 5);
    // 99999999 minutes do not fit a 32-bit count of seconds: no time, no line.
    assert_eq!(lines.len(), 1);
}

#[test]
fn text_after_second_colon_is_ignored() {
    let lines = parse_lrc_text("[00:07:99]x");
    assert_eq!(lines.len(), 1);
    assert_eq!(lines[0].time_cs, 700);
}

#[test]
fn unclosed_bracket_stops_the_tag_search() {
    let lines = parse_lrc_text("[00:01.00]a [b");
    assert_eq!(lines.len(), 1);
    assert_eq!(lines[0].content, "a [b");
    assert!(parse_lrc_text("[00:01.00 broken").is_empty());
}

#[test]
fn strip_tags_removes_leading_time_tags_then_trims() {
    assert_eq!(strip_tags(&chars(" [00:01.00][00:02.00] la la ")), chars("la la"));
    assert_eq!(strip_tags(&chars("hi [00:01.00]there")), chars("hi there"));
    assert_eq!(strip_tags(&chars("[x]y")), chars("[x]y"));
}

#[test]
fn empty_lyrics_have_no_active_line() {
    assert_eq!(lyric_index_at_time(&[], 0), None);
}

#[test]
fn nothing_is_active_before_the_first_line() {
    let lines = vec![line(100, "a"), line(200, "b")];
    assert_eq!(lyric_index_at_time(&lines, 99), None);
    assert_eq!(lyric_index_at_time(&lines, 100), Some(0));
    assert_eq!(lyric_index_at_time(&lines, 199), Some(0));
    assert_eq!(lyric_index_at_time(&lines, 200), Some(1));
    assert_eq!(lyric_index_at_time(&lines, 1_000_000), Some(1));
}

#[test]
fn sorted_times_pick_the_last_started_line() {
    let lines = vec![line(0, "a"), line(500, "b"), line(500, "c"), line(900, "d")];
    assert_eq!(lyric_index_at_time(&lines, 500), Some(2));
    assert_eq!(lyric_index_at_time(&lines, 899), Some(2));
}

#[test]
fn unsorted_times_pick_the_first_active_line() {
    let lines = vec![line(1000, "a"), line(100, "b"), line(500, "c")];
    assert_eq!(lyric_index_at_time(&lines, 200), Some(1));
    assert_eq!(lyric_index_at_time(&lines, 600), Some(2));
    assert_eq!(lyric_index_at_time(&lines, 50), None);
}

#[test]
fn removing_tags_twice_is_removing_once() {
    for line in ["  [00:01.00][00:02.00]  hello [x] ", "[00:01]  [00:02] a", "[bad]text", "plain"] {
        let chars: Vec<char> = line.chars().collect();
        let once = strip_tags(&chars);
        assert_eq!(strip_tags(&once), once);
    }
}

#[test]
fn tag_whose_seconds_overflow_32_bits_is_no_time() {
    assert!(parse_lrc_text("[99999999:00]x").is_empty());
    // 35791394 minutes are 2147483640 seconds; 7 more still fit, 8 do not.
    let fits = parse_lrc_text("[35791394:07]y");
    assert_eq!(fits.len(), 1);
    assert_eq!(fits[0].time_cs, 2_147_483_647 * 100);
    assert!(parse_lrc_text("[35791394:08]z").is_empty());
    assert!(parse_lrc_text("[-35791394:-9]w").is_empty());
}
