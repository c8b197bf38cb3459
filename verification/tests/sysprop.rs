use hweink::mode::Mode;
use hweink::sysprop::{
    decimal_string, get_system_mode, set_full_mode_cnt, set_night_mode, set_system_mode,
    ACTION_FULL_REFRESH_USER,
};

#[test]
fn system_mode_write() {
    let w = set_system_mode(Mode::A2Dither);
    assert_eq!(w.key, "sys.eink.mode");
    assert_eq!(w.value, "13");
    let w = set_system_mode(Mode::PartGlr16);
    assert_eq!(w.value, "9");
    assert_eq!(Mode::from_str(&w.value), Some(Mode::PartGlr16));
}

#[test]
fn system_mode_read_defaults_to_nine() {
    assert_eq!(get_system_mode(None), "9");
    assert_eq!(get_system_mode(Some("12")), "12");
    assert_eq!(get_system_mode(Some("")), "9");
}

#[test]
fn full_mode_cnt_write() {
    let w = set_full_mode_cnt(50);
    assert_eq!(w.key, "persist.vendor.ebook.fullmode_cnt");
    assert_eq!(w.value, "50");
    assert_eq!(set_full_mode_cnt(0).value, "0");
    assert_eq!(set_full_mode_cnt(-7).value, "-7");
}

#[test]
fn decimal_string_matches_to_string() {
    for n in [0, 1, 9, 10, 99, 100, 12345, -1, -10, i32::MAX, i32::MIN] {
        assert_eq!(decimal_string(n), n.to_string());
    }
}

#[test]
fn night_mode_write() {
    let w = set_night_mode(true);
    assert_eq!((w.key.as_str(), w.value.as_str()), ("persist.sys.clr_invert", "1"));
    let w = set_night_mode(false);
    assert_eq!(w.value, "0");
}

#[test]
fn full_refresh_action() {
    assert_eq!(ACTION_FULL_REFRESH_USER, "hanvon.intent.fullrefrsh.user");
}
