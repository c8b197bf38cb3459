use hweink::mode::{parse_mode, Mode};

const ALL: [(Mode, i32, &str, &str); 20] = [
    (Mode::Auto, 0, "0", "auto"),
    (Mode::Overlay, 1, "1", "overlay"),
    (Mode::FullGc16, 2, "2", "full_gc16"),
    (Mode::FullGl16, 3, "3", "full_gl16"),
    (Mode::FullGlr16, 4, "4", "full_glr16"),
    (Mode::FullGld16, 5, "5", "full_gld16"),
    (Mode::FullGcc16, 6, "6", "full_gcc16"),
    (Mode::PartGc16, 7, "7", "part_gc16"),
    (Mode::PartGl16, 8, "8", "part_gl16"),
    (Mode::PartGlr16, 9, "9", "part_glr16"),
    (Mode::PartGld16, 10, "10", "part_gld16"),
    (Mode::PartGcc16, 11, "11", "part_gcc16"),
    (Mode::A2, 12, "12", "a2"),
    (Mode::A2Dither, 13, "13", "a2_dither"),
    (Mode::Du, 14, "14", "du"),
    (Mode::Du4, 15, "15", "du4"),
    (Mode::A2Enter, 16, "16", "a2_enter"),
    (Mode::Reset, 17, "17", "reset"),
    (Mode::AutoDu, 22, "22", "auto_du"),
    (Mode::AutoDu4, 23, "23", "auto_du4"),
];

#[test]
fn mode_codes_and_texts() {
    for &(m, code, text, name) in ALL.iter() {
        assert_eq!(m.code(), code);
        assert_eq!(m.as_str(), text);
        assert_eq!(m.name_str(), name);
    }
}

#[test]
fn mode_from_str_roundtrip() {
    for &(m, _, _, _) in ALL.iter() {
        assert_eq!(Mode::from_str(m.as_str()), Some(m));
    }
}

#[test]
fn mode_from_str_rejects_unknown() {
    for s in ["", "18", "21", "24", "99", "100", "01", "00", "-1", "a", "9 ", " 9", "x9", "٣"] {
        assert_eq!(Mode::from_str(s), None, "{:?}", s);
    }
}

#[test]
fn mode_default_is_auto() {
    assert_eq!(Mode::default(), Mode::Auto);
}

#[test]
fn parse_mode_numbers_and_names() {
    assert_eq!(parse_mode("12"), Some(Mode::A2));
    assert_eq!(parse_mode("a2"), Some(Mode::A2));
    assert_eq!(parse_mode("EPD_A2"), Some(Mode::A2));
    assert_eq!(parse_mode("Full_GC16"), Some(Mode::FullGc16));
    assert_eq!(parse_mode("EPD_part_glr16"), Some(Mode::PartGlr16));
    assert_eq!(parse_mode("AUTO_DU4"), Some(Mode::AutoDu4));
    for &(m, _, text, name) in ALL.iter() {
        assert_eq!(parse_mode(text), Some(m));
        assert_eq!(parse_mode(name), Some(m));
        assert_eq!(parse_mode(&name.to_ascii_uppercase()), Some(m));
    }
}

#[test]
fn parse_mode_rejects_unknown() {
    assert_eq!(parse_mode("epd_a2"), None);
    assert_eq!(parse_mode("EPD_"), None);
    assert_eq!(parse_mode("a3"), None);
    assert_eq!(parse_mode("fullgc16"), None);
    assert_eq!(parse_mode("18"), None);
    assert_eq!(parse_mode(""), None);
}
