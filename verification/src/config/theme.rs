//! Color theme: maps semantic keys (e.g. "dir", "recognized_file") to ANSI
//! styles. Values come from `dark_colors.yaml` / `light_colors.yaml`: CSS
//! named colors (`dodgerblue`) or hex (`#fafafa`), parsed to RGB and emitted
//! as 24-bit ANSI SGR.

use vstd::prelude::*;

use crate::config::str_map::StrMap;
use crate::config::{ConfigError, YamlMap};
use crate::term::TermEnv;
use crate::text::{chars_of, decimal, decimal_string, owned, push_str, str_eq, string_of};

verus! {

/// Which palette is in use.
#[derive(Debug, Clone, Copy, PartialEq, Eq, Structural)]
pub enum ActiveTheme {
    Dark,
    Light,
}

/// `--color` setting.
#[derive(Debug, Clone, Copy, PartialEq, Eq, Structural)]
pub enum ColorMode {
    Always,
    Auto,
    Never,
}

/// A 24-bit color.
#[derive(Debug, Clone, Copy, PartialEq, Eq, Structural)]
pub struct Rgb(pub u8, pub u8, pub u8);

/// How a key is drawn: its foreground color.
#[derive(Debug, Clone, Copy, PartialEq, Eq, Structural)]
pub struct Style {
    pub fg: Rgb,
}

/// Why a color value was rejected.
#[derive(Debug, Clone, PartialEq, Eq)]
pub enum ColorError {
    /// The value is empty after trimming.
    Empty,
    /// The CSS color parser rejected the value; its message.
    Css(String),
}

/// Unicode `White_Space` characters, the set `char::is_whitespace` tests.
pub open spec fn is_white_space(c: char) -> bool {
    ('\u{9}' <= c && c <= '\u{d}') || c == ' ' || c == '\u{85}' || c == '\u{a0}' || c
        == '\u{1680}' || ('\u{2000}' <= c && c <= '\u{200a}') || c == '\u{2028}' || c
        == '\u{2029}' || c == '\u{202f}' || c == '\u{205f}' || c == '\u{3000}'
}

/// `s` without leading white space.
pub open spec fn trim_start(s: Seq<char>) -> Seq<char>
    decreases s.len(),
{
    if s.len() > 0 && is_white_space(s[0]) { trim_start(s.drop_first()) } else { s }
}

/// `s` without trailing white space.
pub open spec fn trim_end(s: Seq<char>) -> Seq<char>
    decreases s.len(),
{
    if s.len() > 0 && is_white_space(s.last()) { trim_end(s.drop_last()) } else { s }
}

/// `s` without leading and trailing white space (`str::trim`).
pub open spec fn trim(s: Seq<char>) -> Seq<char> {
    trim_end(trim_start(s))
}

/// The X11 name `navyblue` is read as the CSS name `navy`.
pub open spec fn alias_color(v: Seq<char>) -> Seq<char> {
    if v == "navyblue"@ { "navy"@ } else { v }
}

/// The RGB color a CSS color string denotes, as `csscolorparser` parses it
/// and `Color::to_rgba8` reads it back (alpha dropped); `None` when the
/// parser rejects the string.
pub uninterp spec fn css_color_rgb(s: Seq<char>) -> Option<(u8, u8, u8)>;

/// The color a theme value denotes: trimmed, aliased, then parsed as CSS.
pub open spec fn color_of(v: Seq<char>) -> Option<Rgb> {
    let t = trim(v);
    if t.len() == 0 {
        None
    } else {
        match css_color_rgb(alias_color(t)) {
            Some(c) => Some(Rgb(c.0, c.1, c.2)),
            None => None,
        }
    }
}

/// Whether `--color=auto` turns color on in `env`.
pub open spec fn auto_color(env: TermEnv) -> bool {
    if env.no_color matches Some(v) && v@.len() > 0 {
        false
    } else if env.clicolor_force matches Some(v) && v@ != "0"@ {
        true
    } else if !env.stdout_is_terminal {
        false
    } else if env.clicolor matches Some(v) && v@ == "0"@ {
        false
    } else if env.term_is_dumb() {
        false
    } else {
        true
    }
}

/// Whether `mode` turns color on in `env`.
pub open spec fn color_enabled(mode: ColorMode, env: TermEnv) -> bool {
    match mode {
        ColorMode::Always => true,
        ColorMode::Never => false,
        ColorMode::Auto => auto_color(env),
    }
}

/// The fallback style for keys a palette lacks: white.
pub open spec fn fallback_style() -> Style {
    Style { fg: Rgb(255, 255, 255) }
}

/// `text` wrapped in a 24-bit foreground SGR sequence for `s`.
pub open spec fn sgr(s: Style, text: Seq<char>) -> Seq<char> {
    "\x1b[38;2;"@ + decimal(s.fg.0 as nat) + ";"@ + decimal(s.fg.1 as nat) + ";"@ + decimal(
        s.fg.2 as nat,
    ) + "m"@ + text + "\x1b[0m"@
}

/// A palette parsed from `map`: every value's color, in key order.
pub open spec fn palette_matches(map: Seq<(Seq<char>, String)>, p: Seq<(Seq<char>, Style)>) -> bool {
    &&& p.len() == map.len()
    &&& forall|i: int|
        0 <= i < map.len() ==> #[trigger] p[i].0 == map[i].0 && color_of(map[i].1@) == Some(
            p[i].1.fg,
        )
}

/// Resolved color palettes and the active choice.
#[derive(Debug, Clone)]
pub struct Theme {
    active: ActiveTheme,
    dark: StrMap<Style>,
    light: StrMap<Style>,
}

impl Theme {
    /// The palette in use.
    pub closed spec fn palette(&self) -> StrMap<Style> {
        match self.active {
            ActiveTheme::Dark => self.dark,
            ActiveTheme::Light => self.light,
        }
    }

    /// The active theme choice.
    pub closed spec fn active_spec(&self) -> ActiveTheme {
        self.active
    }

    /// The dark palette.
    pub closed spec fn dark_palette(&self) -> StrMap<Style> {
        self.dark
    }

    /// The light palette.
    pub closed spec fn light_palette(&self) -> StrMap<Style> {
        self.light
    }

    /// Both palettes are well-formed maps.
    pub closed spec fn wf(&self) -> bool {
        self.dark.wf() && self.light.wf()
    }

    /// The style drawn for `key`.
    pub open spec fn style_of(&self, key: Seq<char>) -> Style {
        if self.palette()@.contains_key(key) {
            self.palette()@[key]
        } else {
            fallback_style()
        }
    }

    /// What `paint` returns.
    pub open spec fn paint_spec(
        &self,
        key: Seq<char>,
        text: Seq<char>,
        mode: ColorMode,
        env: TermEnv,
    ) -> Seq<char> {
        if color_enabled(mode, env) {
            sgr(self.style_of(key), text)
        } else {
            text
        }
    }

    /// Parses both palettes of `cfg`; `active` selects the one used.
    pub fn from_config(cfg: &crate::config::Config, active: ActiveTheme) -> (r: Result<
        Self,
        ConfigError,
    >)
        requires
            cfg.wf(),
        ensures
            r matches Ok(t) ==> {
                &&& t.wf()
                &&& t.active_spec() == active
                &&& palette_matches(cfg.dark_colors.pairs(), t.dark_palette().pairs())
                &&& palette_matches(cfg.light_colors.pairs(), t.light_palette().pairs())
            },
            r is Ok <==> (palette_ok(cfg.dark_colors.pairs()) && palette_ok(
                cfg.light_colors.pairs(),
            )),
            r matches Err(e) ==> (!palette_ok(cfg.dark_colors.pairs()) && palette_error(
                cfg.dark_colors.pairs(),
                "dark_colors.yaml"@,
                e,
            )) || (palette_ok(cfg.dark_colors.pairs()) && palette_error(
                cfg.light_colors.pairs(),
                "light_colors.yaml"@,
                e,
            )),
    {
        let dark = parse_palette(&cfg.dark_colors, "dark_colors.yaml")?;
        let light = parse_palette(&cfg.light_colors, "light_colors.yaml")?;
        Ok(Theme { active, dark, light })
    }

    /// The active theme.
    pub fn active(&self) -> (r: ActiveTheme)
        ensures
            r == self.active_spec(),
    {
        self.active
    }

    /// Returns the style for `key`, or a neutral white fallback.
    pub fn style(&self, key: &str) -> (r: Style)
        requires
            self.wf(),
        ensures
            r == self.style_of(key@),
    {
        let palette = match self.active {
            ActiveTheme::Dark => &self.dark,
            ActiveTheme::Light => &self.light,
        };
        match palette.get(key) {
            Some(s) => *s,
            None => Style { fg: Rgb(255, 255, 255) },
        }
    }

    /// Render `text` wrapped in SGR for `key` if `mode` permits in `env`.
    pub fn paint(&self, key: &str, text: &str, mode: ColorMode, env: &TermEnv) -> (r: String)
        requires
            self.wf(),
        ensures
            r@ == self.paint_spec(key@, text@, mode, *env),
    {
        if !mode.enabled(env) {
            return owned(text);
        }
        let s = self.style(key);
        let mut out = owned("\x1b[38;2;");
        push_str(&mut out, decimal_string(s.fg.0 as u64).as_str());
        push_str(&mut out, ";");
        push_str(&mut out, decimal_string(s.fg.1 as u64).as_str());
        push_str(&mut out, ";");
        push_str(&mut out, decimal_string(s.fg.2 as u64).as_str());
        push_str(&mut out, "m");
        push_str(&mut out, text);
        push_str(&mut out, "\x1b[0m");
        out
    }
}

impl ColorMode {
    /// Resolve `--color=auto` against the environment; explicit always and
    /// never bypass it.
    pub fn enabled(self, env: &TermEnv) -> (r: bool)
        ensures
            r == color_enabled(self, *env),
    {
        match self {
            ColorMode::Always => true,
            ColorMode::Never => false,
            ColorMode::Auto => auto_enabled(env),
        }
    }
}

/// `NO_COLOR` (non-empty) wins; `CLICOLOR_FORCE` (not `0`) forces color on;
/// otherwise color needs a terminal, and `CLICOLOR=0` or `TERM=dumb` turn it
/// off.
fn auto_enabled(env: &TermEnv) -> (r: bool)
    ensures
        r == auto_color(*env),
{
    proof {
        reveal_strlit("0");
    }
    if let Some(v) = &env.no_color {
        if v.as_str().unicode_len() > 0 {
            return false;
        }
    }
    if let Some(v) = &env.clicolor_force {
        if !str_eq(v.as_str(), "0") {
            return true;
        }
    }
    if !env.stdout_is_terminal {
        return false;
    }
    if let Some(v) = &env.clicolor {
        if str_eq(v.as_str(), "0") {
            return false;
        }
    }
    if env.is_dumb_terminal() {
        return false;
    }
    true
}

/// Every value of the map parses as a color.
pub open spec fn palette_ok(map: Seq<(Seq<char>, String)>) -> bool {
    forall|i: int| 0 <= i < map.len() ==> (#[trigger] color_of(map[i].1@)) is Some
}

/// `e` reports the first entry of `map` whose value is not a color.
pub open spec fn palette_error(map: Seq<(Seq<char>, String)>, source: Seq<char>, e: ConfigError) -> bool {
    exists|i: int|
        0 <= i < map.len() && (forall|j: int| 0 <= j < i ==> (#[trigger] color_of(map[j].1@)) is Some)
            && color_of(map[i].1@) is None && (#[trigger] e.invalid_color_at(source, map[i].0, map[i].1@))
}

/// Parses every value of `map` into a style; the first value that is not a
/// color is reported with `source` (the file name) and its key.
pub fn parse_palette(map: &YamlMap, source: &str) -> (r: Result<StrMap<Style>, ConfigError>)
    requires
        map.wf(),
    ensures
        r matches Ok(p) ==> p.wf() && palette_matches(map.pairs(), p.pairs()),
        r is Ok <==> palette_ok(map.pairs()),
        r matches Err(e) ==> palette_error(map.pairs(), source@, e),
{
    let mut out: StrMap<Style> = StrMap::new();
    let n = map.len();
    let mut i: usize = 0;
    while i < n
        invariant
            n == map.pairs().len(),
            i <= n,
            map.wf(),
            out.wf(),
            out.pairs().len() == i,
            forall|j: int|
                0 <= j < i ==> #[trigger] out.pairs()[j].0 == map.pairs()[j].0 && color_of(
                    map.pairs()[j].1@,
                ) == Some(out.pairs()[j].1.fg),
        decreases n - i,
    {
        let k = map.key_at(i);
        let v = map.value_at(i);
        assert forall|j: int| 0 <= j < i implies (#[trigger] color_of(map.pairs()[j].1@)) is Some by {
            assert(out.pairs()[j].0 == map.pairs()[j].0);
        }
        match parse_color(v.as_str()) {
            Ok(rgb) => {
                proof {
                    if i > 0 {
                        assert(crate::text::seq_less(map.pairs()[i - 1].0, map.pairs()[i as int].0));
                    }
                }
                out.push_in_order(owned(k.as_str()), Style { fg: rgb });
            },
            Err(cause) => {
                let e = ConfigError::InvalidColor {
                    source: owned(source),
                    key: owned(k.as_str()),
                    value: owned(v.as_str()),
                    cause,
                };
                proof {
                    assert(e.invalid_color_at(source@, map.pairs()[i as int].0, map.pairs()[i as int].1@));
                }
                return Err(e);
            },
        }
        i = i + 1;
    }
    assert forall|j: int| 0 <= j < n implies (#[trigger] color_of(map.pairs()[j].1@)) is Some by {
        assert(out.pairs()[j].0 == map.pairs()[j].0);
    }
    Ok(out)
}

/// Characters of `v` without leading and trailing white space.
pub fn trimmed(v: &str) -> (r: String)
    ensures
        r@ == trim(v@),
{
    let cs = chars_of(v);
    let n = cs.len();
    let mut lo: usize = 0;
    assert(cs@.skip(0) =~= cs@);
    while lo < n && is_whitespace_char(cs[lo])
        invariant
            cs@ == v@,
            lo <= n,
            n == cs.len(),
            trim_start(v@) == trim_start(cs@.skip(lo as int)),
        decreases n - lo,
    {
        assert(cs@.skip(lo as int).drop_first() =~= cs@.skip(lo + 1));
        lo = lo + 1;
    }
    assert(trim_start(v@) == cs@.skip(lo as int));
    let mut hi: usize = n;
    assert(cs@.subrange(lo as int, n as int) =~= cs@.skip(lo as int));
    while hi > lo && is_whitespace_char(cs[hi - 1])
        invariant
            cs@ == v@,
            lo <= hi <= n,
            n == cs.len(),
            trim(v@) == trim_end(cs@.subrange(lo as int, hi as int)),
        decreases hi,
    {
        assert(cs@.subrange(lo as int, hi as int).drop_last() =~= cs@.subrange(
            lo as int,
            hi - 1,
        ));
        hi = hi - 1;
    }
    assert(trim_end(cs@.subrange(lo as int, hi as int)) == cs@.subrange(lo as int, hi as int));
    string_of(&cs.as_slice()[lo..hi])
}

/// `char::is_whitespace`.
fn is_whitespace_char(c: char) -> (r: bool)
    ensures
        r == is_white_space(c),
{
    ('\u{9}' <= c && c <= '\u{d}') || c == ' ' || c == '\u{85}' || c == '\u{a0}' || c
        == '\u{1680}' || ('\u{2000}' <= c && c <= '\u{200a}') || c == '\u{2028}' || c
        == '\u{2029}' || c == '\u{202f}' || c == '\u{205f}' || c == '\u{3000}'
}

/// Some X11 color names that are not CSS names, mapped to their CSS
/// equivalents (X11 NavyBlue == Navy, #000080).
pub fn alias_color_name(value: &str) -> (r: &str)
    ensures
        r@ == alias_color(value@),
{
    if str_eq(value, "navyblue") {
        proof {
            reveal_strlit("navy");
        }
        "navy"
    } else {
        value
    }
}

/// `csscolorparser::parse(s)` read back with `Color::to_rgba8` (alpha
/// dropped). Succeeds exactly when the named result is `Some`, and then
/// returns it; the error message is the parser's and is not stated.
#[verifier::external_body]
fn css_rgb8(s: &str) -> (r: Result<(u8, u8, u8), String>)
    ensures
        r is Ok == css_color_rgb(s@) is Some,
        r matches Ok(c) ==> css_color_rgb(s@) == Some(c),
{
    match csscolorparser::parse(s) {
        Ok(c) => {
            let [red, green, blue, _alpha] = c.to_rgba8();
            Ok((red, green, blue))
        },
        Err(e) => Err(e.to_string()),
    }
}

/// Parses a theme color value: trimmed, X11 aliases resolved, CSS syntax.
pub fn parse_color(value: &str) -> (r: Result<Rgb, ColorError>)
    ensures
        r is Ok == color_of(value@) is Some,
        r matches Ok(c) ==> color_of(value@) == Some(c),
        trim(value@).len() == 0 ==> r == Err::<Rgb, ColorError>(ColorError::Empty),
{
    let t = trimmed(value);
    if t.as_str().unicode_len() == 0 {
        return Err(ColorError::Empty);
    }
    let normalized = alias_color_name(t.as_str());
    match css_rgb8(normalized) {
        Ok(c) => Ok(Rgb(c.0, c.1, c.2)),
        Err(msg) => Err(ColorError::Css(msg)),
    }
}

/// Painting with `--color=never` adds nothing: the text comes back as it
/// was, whatever the key, theme or environment.
pub proof fn lemma_paint_never_is_plain(theme: Theme, key: Seq<char>, text: Seq<char>, env: TermEnv)
    ensures
        theme.paint_spec(key, text, ColorMode::Never, env) == text,
{
}

/// A set, non-empty `NO_COLOR` turns `--color=auto` off, whatever else the
/// environment says.
pub proof fn lemma_no_color_wins(theme: Theme, key: Seq<char>, text: Seq<char>, env: TermEnv)
    requires
        env.no_color matches Some(v) && v@.len() > 0,
    ensures
        theme.paint_spec(key, text, ColorMode::Auto, env) == text,
{
}

/// Painted text holds the text between the escape that sets the color and
/// the escape that resets it.
pub proof fn lemma_paint_wraps_text(theme: Theme, key: Seq<char>, text: Seq<char>, mode: ColorMode, env: TermEnv)
    requires
        color_enabled(mode, env),
    ensures
        theme.paint_spec(key, text, mode, env) == sgr(theme.style_of(key), text),
        sgr(theme.style_of(key), text).subrange(
            sgr(theme.style_of(key), text).len() - 4 - text.len(),
            sgr(theme.style_of(key), text).len() - 4,
        ) == text,
        sgr(theme.style_of(key), text).len() > text.len(),
{
    let s = theme.style_of(key);
    let prefix = "\x1b[38;2;"@ + decimal(s.fg.0 as nat) + ";"@ + decimal(s.fg.1 as nat) + ";"@
        + decimal(s.fg.2 as nat) + "m"@;
    reveal_strlit("\x1b[0m");
    assert(sgr(s, text) == prefix + text + "\x1b[0m"@);
    assert((prefix + text + "\x1b[0m"@).subrange(prefix.len() as int, (prefix.len() + text.len()) as int)
        =~= text);
}

} // verus!
