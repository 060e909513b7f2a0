use clx_music::app_config::{format_ini, parse_bool, parse_ini, AppConfig, CONFIG_FILE};

fn chars(s: &str) -> Vec<char> {
    s.chars().collect()
}

#[test]
fn default_config_does_not_ask_for_administrator_rights() {
    assert_eq!(AppConfig::default(), AppConfig { launch_as_administrator: false });
    assert_eq!(CONFIG_FILE, "config.ini");
}

#[test]
fn format_writes_comment_and_key() {
    let t = AppConfig { launch_as_administrator: true };
    assert_eq!(format_ini(&t), "; 一梦音乐播放器本地配置\r\nloadByAdministrator=true\r\n");
    let f = AppConfig { launch_as_administrator: false };
    assert_eq!(format_ini(&f), "; 一梦音乐播放器本地配置\r\nloadByAdministrator=false\r\n");
}

#[test]
fn written_settings_read_back() {
    for b in [true, false] {
        let c = AppConfig { launch_as_administrator: b };
        assert_eq!(parse_ini(&format_ini(&c)), c);
    }
}

#[test]
fn booleans_in_any_case_and_spacing() {
    assert_eq!(parse_bool(&chars(" TRUE ")), Some(true));
    assert_eq!(parse_bool(&chars("Yes")), Some(true));
    assert_eq!(parse_bool(&chars("1")), Some(true));
    assert_eq!(parse_bool(&chars("\tfalse")), Some(false));
    assert_eq!(parse_bool(&chars("NO")), Some(false));
    assert_eq!(parse_bool(&chars("0")), Some(false));
    assert_eq!(parse_bool(&chars("on")), None);
    assert_eq!(parse_bool(&chars("")), None);
}

#[test]
fn ini_last_valid_line_wins() {
    let text = "loadByAdministrator=yes\nloadByAdministrator=maybe\n";
    assert!(parse_ini(text).launch_as_administrator);
    let text = "loadByAdministrator=yes\r\nloadByAdministrator = 0\r\n";
    assert!(!parse_ini(text).launch_as_administrator);
}

#[test]
fn ini_comments_blank_lines_and_other_keys_are_skipped() {
    let text = "# loadByAdministrator=true\n; loadByAdministrator=true\n\n  \nother=true\nnoequals\n";
    assert!(!parse_ini(text).launch_as_administrator);
}

#[test]
fn ini_byte_order_marks_are_dropped() {
    assert!(parse_ini("\u{feff}loadByAdministrator=true").launch_as_administrator);
    assert!(parse_ini("x=1\n\u{feff}loadByAdministrator=true").launch_as_administrator);
    assert!(!parse_ini("").launch_as_administrator);
}

#[test]
fn ini_value_after_first_equals_sign() {
    assert!(!parse_ini("loadByAdministrator=true=1").launch_as_administrator);
    assert!(parse_ini("  loadByAdministrator\t=  TRUE  ").launch_as_administrator);
}
