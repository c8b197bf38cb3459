//! EPD refresh waveforms: the `epd_mode` field of a refresh call and the value of
//! the `sys.eink.mode` system property.

use vstd::prelude::*;
use vstd::string::StrSliceExecFns;

verus! {

/// Refresh waveform. Its integer code (see [`Mode::code`]) is used as `epd_mode`
/// and, written in decimal, as the value of `sys.eink.mode`.
#[derive(Clone, Copy, Debug, PartialEq, Eq, Structural, Default)]
pub enum Mode {
    /// Driver auto-select.
    #[default]
    Auto,
    /// OSD overlay partial waveform, used by the OSD path's refresh.
    Overlay,
    /// Full 16-gray refresh; clears ghosting (flashes).
    FullGc16,
    FullGl16,
    /// Regal full (no flash).
    FullGlr16,
    /// Regal full, color-panel variant.
    FullGld16,
    FullGcc16,
    /// Partial GC16, local 16-gray refresh.
    PartGc16,
    PartGl16,
    /// Partial Regal, the device default (`sys.eink.mode=9`).
    PartGlr16,
    PartGld16,
    PartGcc16,
    /// Fast 1bpp monochrome.
    A2,
    /// A2 with dithering.
    A2Dither,
    /// Direct update, fast 1 bit.
    Du,
    /// Direct update, 4 grays.
    Du4,
    A2Enter,
    /// Full panel reset.
    Reset,
    AutoDu,
    AutoDu4,
}

/// The decimal digit character of `d` (for `0 <= d < 10`).
pub open spec fn digit_char(d: int) -> char {
    (48 + d) as char
}

/// The decimal text of a natural number, most significant digit first, no leading zeros.
pub open spec fn decimal(n: nat) -> Seq<char>
    decreases n,
{
    if n < 10 {
        seq![digit_char(n as int)]
    } else {
        decimal(n / 10).push(digit_char((n % 10) as int))
    }
}

/// One- and two-digit numbers written out.
pub proof fn lemma_decimal_small(n: nat)
    requires
        n < 100,
    ensures
        n < 10 ==> decimal(n) == seq![digit_char(n as int)],
        n >= 10 ==> decimal(n) == seq![digit_char((n / 10) as int), digit_char((n % 10) as int)],
{
    if n >= 10 {
        assert(decimal(n / 10) == seq![digit_char((n / 10) as int)]);
        assert(decimal(n) =~= seq![digit_char((n / 10) as int), digit_char((n % 10) as int)]);
    }
}

/// Different one- and two-digit numbers have different decimal texts.
pub proof fn lemma_decimal_injective(a: nat, b: nat)
    requires
        a < 100,
        b < 100,
        decimal(a) == decimal(b),
    ensures
        a == b,
{
    lemma_decimal_small(a);
    lemma_decimal_small(b);
    if a < 10 && b < 10 {
        assert(decimal(a)[0] == digit_char(a as int));
        assert(decimal(b)[0] == digit_char(b as int));
        assert(digit_char(a as int) as int == 48 + a);
        assert(digit_char(b as int) as int == 48 + b);
    } else if a >= 10 && b >= 10 {
        assert(decimal(a)[0] == decimal(b)[0]);
        assert(decimal(a)[1] == decimal(b)[1]);
        assert(digit_char((a / 10) as int) as int == 48 + a / 10);
        assert(digit_char((b / 10) as int) as int == 48 + b / 10);
        assert(digit_char((a % 10) as int) as int == 48 + a % 10);
        assert(digit_char((b % 10) as int) as int == 48 + b % 10);
    } else {
        assert(decimal(a).len() != decimal(b).len());
    }
}

/// Each waveform is the one its code names.
pub proof fn lemma_mode_of_code(m: Mode)
    ensures
        mode_of_code(m.spec_code()) == Some(m),
        0 <= m.spec_code() < 100,
{
}

/// The waveform whose integer code is `c`, if there is one.
pub open spec fn mode_of_code(c: int) -> Option<Mode> {
    if c == 0 {
        Some(Mode::Auto)
    } else if c == 1 {
        Some(Mode::Overlay)
    } else if c == 2 {
        Some(Mode::FullGc16)
    } else if c == 3 {
        Some(Mode::FullGl16)
    } else if c == 4 {
        Some(Mode::FullGlr16)
    } else if c == 5 {
        Some(Mode::FullGld16)
    } else if c == 6 {
        Some(Mode::FullGcc16)
    } else if c == 7 {
        Some(Mode::PartGc16)
    } else if c == 8 {
        Some(Mode::PartGl16)
    } else if c == 9 {
        Some(Mode::PartGlr16)
    } else if c == 10 {
        Some(Mode::PartGld16)
    } else if c == 11 {
        Some(Mode::PartGcc16)
    } else if c == 12 {
        Some(Mode::A2)
    } else if c == 13 {
        Some(Mode::A2Dither)
    } else if c == 14 {
        Some(Mode::Du)
    } else if c == 15 {
        Some(Mode::Du4)
    } else if c == 16 {
        Some(Mode::A2Enter)
    } else if c == 17 {
        Some(Mode::Reset)
    } else if c == 22 {
        Some(Mode::AutoDu)
    } else if c == 23 {
        Some(Mode::AutoDu4)
    } else {
        None
    }
}

/// The waveform whose integer code is `c`, if there is one.
fn mode_from_code(c: u32) -> (r: Option<Mode>)
    ensures
        r == mode_of_code(c as int),
{
    match c {
        0 => Some(Mode::Auto),
        1 => Some(Mode::Overlay),
        2 => Some(Mode::FullGc16),
        3 => Some(Mode::FullGl16),
        4 => Some(Mode::FullGlr16),
        5 => Some(Mode::FullGld16),
        6 => Some(Mode::FullGcc16),
        7 => Some(Mode::PartGc16),
        8 => Some(Mode::PartGl16),
        9 => Some(Mode::PartGlr16),
        10 => Some(Mode::PartGld16),
        11 => Some(Mode::PartGcc16),
        12 => Some(Mode::A2),
        13 => Some(Mode::A2Dither),
        14 => Some(Mode::Du),
        15 => Some(Mode::Du4),
        16 => Some(Mode::A2Enter),
        17 => Some(Mode::Reset),
        22 => Some(Mode::AutoDu),
        23 => Some(Mode::AutoDu4),
        _ => None,
    }
}

impl Mode {
    /// The waveform's integer code.
    pub open spec fn spec_code(self) -> int {
        match self {
            Mode::Auto => 0,
            Mode::Overlay => 1,
            Mode::FullGc16 => 2,
            Mode::FullGl16 => 3,
            Mode::FullGlr16 => 4,
            Mode::FullGld16 => 5,
            Mode::FullGcc16 => 6,
            Mode::PartGc16 => 7,
            Mode::PartGl16 => 8,
            Mode::PartGlr16 => 9,
            Mode::PartGld16 => 10,
            Mode::PartGcc16 => 11,
            Mode::A2 => 12,
            Mode::A2Dither => 13,
            Mode::Du => 14,
            Mode::Du4 => 15,
            Mode::A2Enter => 16,
            Mode::Reset => 17,
            Mode::AutoDu => 22,
            Mode::AutoDu4 => 23,
        }
    }

    /// The decimal text of the waveform's code, the value of `sys.eink.mode`.
    pub open spec fn text(self) -> Seq<char> {
        decimal(self.spec_code() as nat)
    }

    /// The waveform's integer code (`epd_mode`).
    pub fn code(self) -> (r: i32)
        ensures
            r == self.spec_code(),
    {
        match self {
            Mode::Auto => 0,
            Mode::Overlay => 1,
            Mode::FullGc16 => 2,
            Mode::FullGl16 => 3,
            Mode::FullGlr16 => 4,
            Mode::FullGld16 => 5,
            Mode::FullGcc16 => 6,
            Mode::PartGc16 => 7,
            Mode::PartGl16 => 8,
            Mode::PartGlr16 => 9,
            Mode::PartGld16 => 10,
            Mode::PartGcc16 => 11,
            Mode::A2 => 12,
            Mode::A2Dither => 13,
            Mode::Du => 14,
            Mode::Du4 => 15,
            Mode::A2Enter => 16,
            Mode::Reset => 17,
            Mode::AutoDu => 22,
            Mode::AutoDu4 => 23,
        }
    }

    /// Decimal string value, as used for `sys.eink.mode`.
    pub fn as_str(self) -> (r: &'static str)
        ensures
            r@ == self.text(),
    {
        proof {
            lemma_decimal_small(self.spec_code() as nat);
        }
        match self {
            Mode::Auto => {
                proof {
                    reveal_strlit("0");
                    assert("0"@ =~= seq!['0']);
                }
                "0"
            },
            Mode::Overlay => {
                proof {
                    reveal_strlit("1");
                    assert("1"@ =~= seq!['1']);
                }
                "1"
            },
            Mode::FullGc16 => {
                proof {
                    reveal_strlit("2");
                    assert("2"@ =~= seq!['2']);
                }
                "2"
            },
            Mode::FullGl16 => {
                proof {
                    reveal_strlit("3");
                    assert("3"@ =~= seq!['3']);
                }
                "3"
            },
            Mode::FullGlr16 => {
                proof {
                    reveal_strlit("4");
                    assert("4"@ =~= seq!['4']);
                }
                "4"
            },
            Mode::FullGld16 => {
                proof {
                    reveal_strlit("5");
                    assert("5"@ =~= seq!['5']);
                }
                "5"
            },
            Mode::FullGcc16 => {
                proof {
                    reveal_strlit("6");
                    assert("6"@ =~= seq!['6']);
                }
                "6"
            },
            Mode::PartGc16 => {
                proof {
                    reveal_strlit("7");
                    assert("7"@ =~= seq!['7']);
                }
                "7"
            },
            Mode::PartGl16 => {
                proof {
                    reveal_strlit("8");
                    assert("8"@ =~= seq!['8']);
                }
                "8"
            },
            Mode::PartGlr16 => {
                proof {
                    reveal_strlit("9");
                    assert("9"@ =~= seq!['9']);
                }
                "9"
            },
            Mode::PartGld16 => {
                proof {
                    reveal_strlit("10");
                    assert("10"@ =~= seq!['1', '0']);
                }
                "10"
            },
            Mode::PartGcc16 => {
                proof {
                    reveal_strlit("11");
                    assert("11"@ =~= seq!['1', '1']);
                }
                "11"
            },
            Mode::A2 => {
                proof {
                    reveal_strlit("12");
                    assert("12"@ =~= seq!['1', '2']);
                }
                "12"
            },
            Mode::A2Dither => {
                proof {
                    reveal_strlit("13");
                    assert("13"@ =~= seq!['1', '3']);
                }
                "13"
            },
            Mode::Du => {
                proof {
                    reveal_strlit("14");
                    assert("14"@ =~= seq!['1', '4']);
                }
                "14"
            },
            Mode::Du4 => {
                proof {
                    reveal_strlit("15");
                    assert("15"@ =~= seq!['1', '5']);
                }
                "15"
            },
            Mode::A2Enter => {
                proof {
                    reveal_strlit("16");
                    assert("16"@ =~= seq!['1', '6']);
                }
                "16"
            },
            Mode::Reset => {
                proof {
                    reveal_strlit("17");
                    assert("17"@ =~= seq!['1', '7']);
                }
                "17"
            },
            Mode::AutoDu => {
                proof {
                    reveal_strlit("22");
                    assert("22"@ =~= seq!['2', '2']);
                }
                "22"
            },
            Mode::AutoDu4 => {
                proof {
                    reveal_strlit("23");
                    assert("23"@ =~= seq!['2', '3']);
                }
                "23"
            },
        }
    }
    /// Parse a `sys.eink.mode` decimal string. Returns `None` for unknown codes.
    pub fn from_str(s: &str) -> (r: Option<Mode>)
        ensures
            r matches Some(m) ==> s@ == m.text(),
            r is None ==> forall|m: Mode| s@ != #[trigger] m.text(),
    {
        let n = s.unicode_len();
        let code: u32;
        if n == 1 {
            let c = s.get_char(0);
            if '0' <= c && c <= '9' {
                code = (c as u32) - 48;
                proof {
                    lemma_decimal_small(code as nat);
                    assert(s@ =~= decimal(code as nat));
                }
            } else {
                proof {
                    assert forall|m: Mode| s@ != #[trigger] m.text() by {
                        lemma_mode_of_code(m);
                        lemma_decimal_small(m.spec_code() as nat);
                    }
                }
                return None;
            }
        } else if n == 2 {
            let c0 = s.get_char(0);
            let c1 = s.get_char(1);
            if '1' <= c0 && c0 <= '9' && '0' <= c1 && c1 <= '9' {
                code = ((c0 as u32) - 48) * 10 + ((c1 as u32) - 48);
                proof {
                    lemma_decimal_small(code as nat);
                    assert(s@ =~= decimal(code as nat));
                }
            } else {
                proof {
                    assert forall|m: Mode| s@ != #[trigger] m.text() by {
                        lemma_mode_of_code(m);
                        lemma_decimal_small(m.spec_code() as nat);
                    }
                }
                return None;
            }
        } else {
            proof {
                assert forall|m: Mode| s@ != #[trigger] m.text() by {
                    lemma_mode_of_code(m);
                    lemma_decimal_small(m.spec_code() as nat);
                }
            }
            return None;
        }
        let r = mode_from_code(code);
        proof {
            if r is None {
                assert forall|m: Mode| s@ != #[trigger] m.text() by {
                    lemma_mode_of_code(m);
                    if s@ == m.text() {
                        lemma_decimal_injective(code as nat, m.spec_code() as nat);
                    }
                }
            } else {
                assert(r->0.spec_code() == code);
            }
        }
        r
    }
}

/// Parsing the text of a waveform gives that waveform back, and a text that parses
/// is the text of the waveform it parses to: `from_str(m.as_str()) == Some(m)`.
pub proof fn lemma_text_roundtrip(m: Mode, n: Mode)
    ensures
        m.text() == n.text() <==> m == n,
{
    lemma_mode_of_code(m);
    lemma_mode_of_code(n);
    if m.text() == n.text() {
        lemma_decimal_injective(m.spec_code() as nat, n.spec_code() as nat);
    }
}


/// ASCII letters lowered; every other character kept.
pub open spec fn ascii_lower(c: char) -> char {
    if 'A' <= c <= 'Z' {
        ((c as int) + 32) as char
    } else {
        c
    }
}

/// The text with its ASCII letters lowered.
pub open spec fn lowered(s: Seq<char>) -> Seq<char> {
    Seq::new(s.len(), |i: int| ascii_lower(s[i]))
}

/// The text without a leading `EPD_`, when it has one.
pub open spec fn without_epd(s: Seq<char>) -> Seq<char> {
    if s.len() >= 4 && s.subrange(0, 4) == "EPD_"@ {
        s.subrange(4, s.len() as int)
    } else {
        s
    }
}

impl Mode {
    /// The waveform's symbolic name, lower case (`full_gc16`, `a2_dither`, ...).
    pub open spec fn name(self) -> Seq<char> {
        match self {
            Mode::Auto => "auto"@,
            Mode::Overlay => "overlay"@,
            Mode::FullGc16 => "full_gc16"@,
            Mode::FullGl16 => "full_gl16"@,
            Mode::FullGlr16 => "full_glr16"@,
            Mode::FullGld16 => "full_gld16"@,
            Mode::FullGcc16 => "full_gcc16"@,
            Mode::PartGc16 => "part_gc16"@,
            Mode::PartGl16 => "part_gl16"@,
            Mode::PartGlr16 => "part_glr16"@,
            Mode::PartGld16 => "part_gld16"@,
            Mode::PartGcc16 => "part_gcc16"@,
            Mode::A2 => "a2"@,
            Mode::A2Dither => "a2_dither"@,
            Mode::Du => "du"@,
            Mode::Du4 => "du4"@,
            Mode::A2Enter => "a2_enter"@,
            Mode::Reset => "reset"@,
            Mode::AutoDu => "auto_du"@,
            Mode::AutoDu4 => "auto_du4"@,
        }
    }

    /// The waveform's symbolic name, lower case.
    pub fn name_str(self) -> (r: &'static str)
        ensures
            r@ == self.name(),
    {
        match self {
            Mode::Auto => "auto",
            Mode::Overlay => "overlay",
            Mode::FullGc16 => "full_gc16",
            Mode::FullGl16 => "full_gl16",
            Mode::FullGlr16 => "full_glr16",
            Mode::FullGld16 => "full_gld16",
            Mode::FullGcc16 => "full_gcc16",
            Mode::PartGc16 => "part_gc16",
            Mode::PartGl16 => "part_gl16",
            Mode::PartGlr16 => "part_glr16",
            Mode::PartGld16 => "part_gld16",
            Mode::PartGcc16 => "part_gcc16",
            Mode::A2 => "a2",
            Mode::A2Dither => "a2_dither",
            Mode::Du => "du",
            Mode::Du4 => "du4",
            Mode::A2Enter => "a2_enter",
            Mode::Reset => "reset",
            Mode::AutoDu => "auto_du",
            Mode::AutoDu4 => "auto_du4",
        }
    }
}

/// `t` with its ASCII letters lowered equals `name`.
fn lower_eq(t: &str, name: &str) -> (r: bool)
    ensures
        r == (lowered(t@) == name@),
{
    let n = t.unicode_len();
    if n != name.unicode_len() {
        proof {
            assert(lowered(t@).len() != name@.len());
        }
        return false;
    }
    let mut i: usize = 0;
    while i < n
        invariant
            n == t@.len(),
            n == name@.len(),
            0 <= i <= n,
            forall|k: int| 0 <= k < i ==> ascii_lower(t@[k]) == name@[k],
        decreases n - i,
    {
        let a = t.get_char(i);
        let b = name.get_char(i);
        let same = if 'A' <= a && a <= 'Z' { (a as u32) + 32 == (b as u32) } else { a == b };
        if !same {
            proof {
                assert(lowered(t@)[i as int] != name@[i as int]);
            }
            return false;
        }
        i = i + 1;
    }
    proof {
        assert(lowered(t@) =~= name@);
    }
    true
}

/// Parse a waveform given as its decimal code (`"12"`) or its name, in any ASCII
/// case and with an optional `EPD_` prefix (`"a2"`, `"EPD_A2"`, `"Full_GC16"`).
/// `None` when it is neither.
pub fn parse_mode(s: &str) -> (r: Option<Mode>)
    ensures
        r matches Some(m) ==> s@ == m.text() || lowered(without_epd(s@)) == m.name(),
        r is None ==> forall|m: Mode| s@ != #[trigger] m.text() && lowered(without_epd(s@)) != m.name(),
{
    if let Some(m) = Mode::from_str(s) {
        return Some(m);
    }
    let n = s.unicode_len();
    let has_prefix = n >= 4 && s.get_char(0) == 'E' && s.get_char(1) == 'P' && s.get_char(2) == 'D'
        && s.get_char(3) == '_';
    proof {
        reveal_strlit("EPD_");
        if n >= 4 {
            if has_prefix {
                assert(s@.subrange(0, 4) =~= "EPD_"@);
            } else {
                assert(s@.subrange(0, 4) != "EPD_"@ ) by {
                    if s@.subrange(0, 4) == "EPD_"@ {
                        assert(s@[0] == s@.subrange(0, 4)[0]);
                        assert(s@[1] == s@.subrange(0, 4)[1]);
                        assert(s@[2] == s@.subrange(0, 4)[2]);
                        assert(s@[3] == s@.subrange(0, 4)[3]);
                    }
                }
            }
        }
    }
    let t: &str = if has_prefix { s.substring_char(4, n) } else { s };
    proof {
        assert(t@ == without_epd(s@));
    }
    if lower_eq(t, Mode::Auto.name_str()) {
        return Some(Mode::Auto);
    }
    if lower_eq(t, Mode::Overlay.name_str()) {
        return Some(Mode::Overlay);
    }
    if lower_eq(t, Mode::FullGc16.name_str()) {
        return Some(Mode::FullGc16);
    }
    if lower_eq(t, Mode::FullGl16.name_str()) {
        return Some(Mode::FullGl16);
    }
    if lower_eq(t, Mode::FullGlr16.name_str()) {
        return Some(Mode::FullGlr16);
    }
    if lower_eq(t, Mode::FullGld16.name_str()) {
        return Some(Mode::FullGld16);
    }
    if lower_eq(t, Mode::FullGcc16.name_str()) {
        return Some(Mode::FullGcc16);
    }
    if lower_eq(t, Mode::PartGc16.name_str()) {
        return Some(Mode::PartGc16);
    }
    if lower_eq(t, Mode::PartGl16.name_str()) {
        return Some(Mode::PartGl16);
    }
    if lower_eq(t, Mode::PartGlr16.name_str()) {
        return Some(Mode::PartGlr16);
    }
    if lower_eq(t, Mode::PartGld16.name_str()) {
        return Some(Mode::PartGld16);
    }
    if lower_eq(t, Mode::PartGcc16.name_str()) {
        return Some(Mode::PartGcc16);
    }
    if lower_eq(t, Mode::A2.name_str()) {
        return Some(Mode::A2);
    }
    if lower_eq(t, Mode::A2Dither.name_str()) {
        return Some(Mode::A2Dither);
    }
    if lower_eq(t, Mode::Du.name_str()) {
        return Some(Mode::Du);
    }
    if lower_eq(t, Mode::Du4.name_str()) {
        return Some(Mode::Du4);
    }
    if lower_eq(t, Mode::A2Enter.name_str()) {
        return Some(Mode::A2Enter);
    }
    if lower_eq(t, Mode::Reset.name_str()) {
        return Some(Mode::Reset);
    }
    if lower_eq(t, Mode::AutoDu.name_str()) {
        return Some(Mode::AutoDu);
    }
    if lower_eq(t, Mode::AutoDu4.name_str()) {
        return Some(Mode::AutoDu4);
    }
    None
}

} // verus!
