//! Syntax highlighting of previews over syntect's syntaxes and themes:
//! colours and styles, line truncation, theme fallback and line output.
use std::sync::Arc;
use syntect::easy::HighlightLines;
use syntect::highlighting::{Color as SynColor, FontStyle as SynFontStyle, ThemeSet};
use syntect::parsing::{SyntaxReference, SyntaxSet};
use vstd::prelude::*;
use crate::text::{append_str, chars_of, decimal, decimal_string, join_strings, join_with, lines, lines_exec, opt_view, push_char, string_from, string_of, trim_start_char, trim_start_char_exec, views, file_name, path_extension};
use crate::files_preview::hex::{byte_hex, hex_digit, pad_left, push_repeated};

verus! {

/// An RGBA colour.
#[derive(Debug, Clone, Copy, PartialEq, Eq, Structural)]
pub struct Color {
    pub r: u8,
    pub g: u8,
    pub b: u8,
    pub a: u8,
}

/// Two lowercase hex digits of a byte.
pub open spec fn hex2(b: u8) -> Seq<char> {
    byte_hex(b, false)
}

fn push_hex2(s: &mut String, b: u8)
    ensures
        final(s)@ == old(s)@ + hex2(b),
{
    let hi = b / 16;
    let lo = b % 16;
    let c1 = if hi < 10 { (hi + 48) as char } else { (hi + 87) as char };
    let c2 = if lo < 10 { (lo + 48) as char } else { (lo + 87) as char };
    push_char(s, c1);
    push_char(s, c2);
    assert(final(s)@ =~= old(s)@ + hex2(b)) by {
        assert(c1 == hex_digit(hi as nat, false));
        assert(c2 == hex_digit(lo as nat, false));
    }
}

impl Color {
    pub fn new(r: u8, g: u8, b: u8, a: u8) -> (c: Self)
        ensures
            c == (Color { r, g, b, a }),
    {
        Color { r, g, b, a }
    }

    /// `#rrggbbaa`.
    pub fn to_hex_string(&self) -> (s: String)
        ensures
            s@ == "#"@ + hex2(self.r) + hex2(self.g) + hex2(self.b) + hex2(self.a),
    {
        let mut s = string_from("#");
        push_hex2(&mut s, self.r);
        push_hex2(&mut s, self.g);
        push_hex2(&mut s, self.b);
        push_hex2(&mut s, self.a);
        s
    }

    /// `#rrggbb`.
    pub fn to_rgb_hex_string(&self) -> (s: String)
        ensures
            s@ == "#"@ + hex2(self.r) + hex2(self.g) + hex2(self.b),
    {
        let mut s = string_from("#");
        push_hex2(&mut s, self.r);
        push_hex2(&mut s, self.g);
        push_hex2(&mut s, self.b);
        s
    }
}

/// Font styling properties.
#[derive(Debug, Clone, Copy, PartialEq, Eq, Structural)]
pub struct FontStyle {
    pub bold: bool,
    pub italic: bool,
    pub underline: bool,
}

impl Default for FontStyle {
    fn default() -> (r: Self)
        ensures
            r == (FontStyle { bold: false, italic: false, underline: false }),
    {
        FontStyle { bold: false, italic: false, underline: false }
    }
}

/// A run of text with one style.
#[derive(Debug, Clone, PartialEq, Eq)]
pub struct StyleSpan {
    pub text: String,
    pub fg: Color,
    pub bg: Color,
    pub font_style: FontStyle,
}

/// One highlighted line.
#[derive(Debug, Clone, PartialEq, Eq)]
pub struct HighlightedLine {
    pub line_number: usize,
    pub spans: Vec<StyleSpan>,
}

/// Formatted preview output.
#[derive(Debug, Clone, PartialEq, Eq)]
pub struct HighlightedOutput {
    pub content: String,
    pub language: String,
    pub line_count: usize,
    pub truncated: bool,
}

/// Options of a highlighting run.
#[derive(Debug, Clone, PartialEq, Eq)]
pub struct HighlightOptions {
    pub theme: String,
    pub max_lines: Option<usize>,
    pub max_bytes: Option<usize>,
    pub render_line_numbers: bool,
}

impl Default for HighlightOptions {
    fn default() -> (r: Self)
        ensures
            r.theme@ == "base16-ocean.dark"@,
            r.max_lines == Some(2000usize),
            r.max_bytes == Some(1_000_000usize),
            !r.render_line_numbers,
    {
        HighlightOptions {
            theme: string_from("base16-ocean.dark"),
            max_lines: Some(2000),
            max_bytes: Some(1_000_000),
            render_line_numbers: false,
        }
    }
}

/// Errors of syntax highlighting.
#[derive(Debug, Clone, PartialEq, Eq)]
pub enum SyntaxError {
    IoError(String),
    ThemeNotFound(String),
    HighlightError(String),
    FileTooLarge { size: usize, limit: usize },
}

/// The message of a highlighting error.
pub open spec fn syntax_error_message(e: SyntaxError) -> Seq<char> {
    match e {
        SyntaxError::IoError(m) => "IO Error: "@ + m@,
        SyntaxError::ThemeNotFound(t) => "Theme not found: "@ + t@,
        SyntaxError::HighlightError(m) => "Highlight Error: "@ + m@,
        SyntaxError::FileTooLarge { size, limit } => "File size ("@ + decimal(size as nat)
            + " bytes) exceeds maximum limit ("@ + decimal(limit as nat) + " bytes)"@,
    }
}

impl SyntaxError {
    /// The message shown for the error.
    pub fn to_string(&self) -> (r: String)
        ensures
            r@ == syntax_error_message(*self),
    {
        match self {
            SyntaxError::IoError(m) => {
                let mut s = string_from("IO Error: ");
                append_str(&mut s, m.as_str());
                s
            },
            SyntaxError::ThemeNotFound(t) => {
                let mut s = string_from("Theme not found: ");
                append_str(&mut s, t.as_str());
                s
            },
            SyntaxError::HighlightError(m) => {
                let mut s = string_from("Highlight Error: ");
                append_str(&mut s, m.as_str());
                s
            },
            SyntaxError::FileTooLarge { size, limit } => {
                let mut s = string_from("File size (");
                append_str(&mut s, decimal_string(*size as u64).as_str());
                append_str(&mut s, " bytes) exceeds maximum limit (");
                append_str(&mut s, decimal_string(*limit as u64).as_str());
                append_str(&mut s, " bytes)");
                s
            },
        }
    }
}

/// The code cut to at most `max_lines` lines (joined with newlines), the
/// number of lines, and whether it was cut.
pub open spec fn truncated_code(code: Seq<char>, max_lines: Option<usize>) -> (Seq<char>, nat, bool) {
    let ls = lines(code);
    match max_lines {
        Some(limit) => if ls.len() > limit {
            (join_with(ls.take(limit as int), "\n"@), ls.len(), true)
        } else {
            (code, ls.len(), false)
        },
        None => (code, ls.len(), false),
    }
}

/// Cuts code to at most `max_lines` lines.
pub fn truncate_code(code: &str, max_lines: Option<usize>) -> (r: (String, usize, bool))
    ensures
        (r.0@, r.1 as nat, r.2) == truncated_code(code@, max_lines),
{
    let c = chars_of(code);
    let ls = lines_exec(&c);
    let ghost lv = views(ls@);
    assert(lv.len() == ls@.len());
    let total = ls.len();
    if let Some(limit) = max_lines {
        if total > limit {
            let mut kept: Vec<String> = Vec::new();
            let mut i: usize = 0;
            while i < limit
                invariant
                    i <= limit < total == ls@.len(),
                    lv == views(ls@),
                    kept@.map_values(|s: String| s@) == lv.take(i as int),
                decreases limit - i,
            {
                let ghost before = kept@;
                let s = string_of(&ls[i]);
                kept.push(s);
                assert(kept@.map_values(|s: String| s@) =~= before.map_values(|s: String| s@).push(s@));
                assert(lv.take(i + 1) =~= lv.take(i as int).push(lv[i as int]));
                i += 1;
            }
            return (join_strings(&kept, "\n"), total, true);
        }
    }
    (string_from(code), total, false)
}


// ------------------------------------------------------------------
// syntect's syntaxes and themes
// ------------------------------------------------------------------

#[verifier::external_type_specification]
#[verifier::external_body]
pub struct ExSyntaxSet(SyntaxSet);

#[verifier::external_type_specification]
#[verifier::external_body]
pub struct ExSyntaxReference(SyntaxReference);

#[verifier::external_type_specification]
#[verifier::external_body]
pub struct ExThemeSet(ThemeSet);

#[verifier::external_type_specification]
#[verifier::external_body]
pub struct ExSyntectColor(SynColor);

#[verifier::external_type_specification]
#[verifier::external_body]
pub struct ExSyntectFontStyle(SynFontStyle);

#[verifier::external_type_specification]
#[verifier::external_body]
pub struct ExHighlightLines<'a>(HighlightLines<'a>);

#[verifier::external_type_specification]
#[verifier::external_body]
pub struct ExSyntectError(syntect::Error);

/// The names of the themes of a theme set: the keys of its map.
pub uninterp spec fn theme_keys(ts: ThemeSet) -> Set<Seq<char>>;

/// The names of the syntaxes of a syntax set, in order.
pub uninterp spec fn syntax_names(ss: SyntaxSet) -> Seq<Seq<char>>;

/// The themes that syntect bundles.
pub open spec fn default_theme_names() -> Set<Seq<char>> {
    set![
        "base16-ocean.dark"@,
        "base16-eighties.dark"@,
        "base16-mocha.dark"@,
        "base16-ocean.light"@,
        "InspiredGitHub"@,
        "Solarized (dark)"@,
        "Solarized (light)"@,
    ]
}

/// Calls `SyntaxSet::load_defaults_newlines`. The bundled dump is generated
/// with the plain-text syntax added, so the set holds "Plain Text"; nothing
/// else is claimed of its syntaxes.
#[verifier::external_body]
fn default_syntax_set() -> (r: SyntaxSet)
    ensures
        syntax_names(r).contains("Plain Text"@),
{
    SyntaxSet::load_defaults_newlines()
}

/// Calls `ThemeSet::load_defaults`, whose documentation lists the keys of
/// the bundled themes.
#[verifier::external_body]
fn default_theme_set() -> (r: ThemeSet)
    ensures
        theme_keys(r) == default_theme_names(),
{
    ThemeSet::load_defaults()
}

/// Collects the keys of `ThemeSet::themes`, a `BTreeMap`: each key once.
/// Their order (that of the map) is not claimed.
#[verifier::external_body]
fn theme_key_list(ts: &ThemeSet) -> (r: Vec<String>)
    ensures
        r@.map_values(|s: String| s@).to_set() == theme_keys(*ts),
        r@.map_values(|s: String| s@).no_duplicates(),
{
    ts.themes.keys().cloned().collect()
}

/// Collects the `name` of each syntax of `SyntaxSet::syntaxes`, in order.
#[verifier::external_body]
fn syntax_name_list(ss: &SyntaxSet) -> (r: Vec<String>)
    ensures
        r@.map_values(|s: String| s@) == syntax_names(*ss),
{
    ss.syntaxes().iter().map(|s| s.name.clone()).collect()
}

/// Asks `ThemeSet::themes` (`BTreeMap::contains_key`) whether a theme has
/// the name: exactly when the name is a key.
#[verifier::external_body]
fn theme_present(ts: &ThemeSet, name: &str) -> (r: bool)
    ensures
        r <==> theme_keys(*ts).contains(name@),
{
    ts.themes.contains_key(name)
}

/// The name of the syntax that `SyntaxSet::find_syntax_by_extension` finds
/// for an extension in the bundled syntax set.
pub uninterp spec fn extension_syntax(extension: Seq<char>) -> Option<Seq<char>>;

/// The name of the syntax that `SyntaxSet::find_syntax_by_first_line` finds
/// for a first line in the bundled syntax set.
pub uninterp spec fn first_line_syntax(line: Seq<char>) -> Option<Seq<char>>;

/// What `syntect::html::highlighted_html_for_string` gives for code with the
/// bundled syntax and theme of these names (`None` for its error).
pub uninterp spec fn syntect_html(code: Seq<char>, syntax: Seq<char>, theme: Seq<char>) -> Option<Seq<char>>;

/// The styled spans (foreground, background, font style, text) that
/// `HighlightLines::highlight_line` gives for `line`, after the lines
/// `before` were given to the same highlighter, with the bundled syntax and
/// theme of these names (`None` for its error).
pub uninterp spec fn syntect_spans(before: Seq<Seq<char>>, line: Seq<char>, syntax: Seq<char>, theme: Seq<char>) -> Option<Seq<(Color, Color, FontStyle, Seq<char>)>>;

/// The terminal text (`as_24_bit_terminal_escaped` without background) of
/// what `HighlightLines::highlight_line` gives for `line` after `before`.
pub uninterp spec fn syntect_ansi_line(before: Seq<Seq<char>>, line: Seq<char>, syntax: Seq<char>, theme: Seq<char>) -> Option<Seq<char>>;

/// The HTML (`styled_line_to_highlighted_html` without background) of what
/// `HighlightLines::highlight_line` gives for `line` after `before`.
pub uninterp spec fn syntect_html_line(before: Seq<Seq<char>>, line: Seq<char>, syntax: Seq<char>, theme: Seq<char>) -> Option<Seq<char>>;

/// The lines given to a line highlighter so far.
pub uninterp spec fn fed_lines(h: HighlightLines) -> Seq<Seq<char>>;

/// The name of the syntax a line highlighter was made with.
pub uninterp spec fn highlighter_syntax(h: HighlightLines) -> Seq<char>;

/// The name of the theme a line highlighter was made with.
pub uninterp spec fn highlighter_theme(h: HighlightLines) -> Seq<char>;

/// A styled span as plain values.
pub open spec fn span_view(s: StyleSpan) -> (Color, Color, FontStyle, Seq<char>) {
    (s.fg, s.bg, s.font_style, s.text@)
}

/// What `SyntaxSet::find_syntax_for_file` finds from the path alone: the
/// syntax of the file name taken as an extension, else that of the path's
/// extension (an absent name or extension standing as the empty text).
pub open spec fn path_syntax(path: Seq<char>) -> Option<Seq<char>> {
    let name = match file_name(path) {
        Some(n) => n,
        None => Seq::<char>::empty(),
    };
    let ext = match path_extension(path) {
        Some(e) => e,
        None => Seq::<char>::empty(),
    };
    match extension_syntax(name) {
        Some(n) => Some(n),
        None => extension_syntax(ext),
    }
}

/// Calls `SyntaxSet::find_syntax_for_file` and reads the name of what it
/// finds. It looks the file name, then the extension, up as extensions; only
/// when both fail does it read the file's first line (an I/O error giving
/// `None`) and look that line up, so then what it finds depends on the disk.
#[verifier::external_body]
fn syntax_name_for_file(ss: &SyntaxSet, path: &str) -> (r: Option<String>)
    ensures
        r matches Some(n) ==> syntax_names(*ss).contains(n@),
        path_syntax(path@) is Some ==> opt_view(r) == path_syntax(path@),
        path_syntax(path@) is None ==> (r matches Some(n) ==> exists|l: Seq<char>|
            #[trigger] first_line_syntax(l) == Some(n@)),
{
    ss.find_syntax_for_file(std::path::Path::new(path)).ok().flatten().map(|s| s.name.clone())
}

/// Calls `SyntaxSet::find_syntax_by_extension` on the bundled set (the only
/// set a highlighter holds) and reads the name of what it finds; named
/// `extension_syntax`.
#[verifier::external_body]
fn syntax_name_by_extension(ss: &SyntaxSet, extension: &str) -> (r: Option<String>)
    ensures
        opt_view(r) == extension_syntax(extension@),
        r matches Some(n) ==> syntax_names(*ss).contains(n@),
{
    ss.find_syntax_by_extension(extension).map(|s| s.name.clone())
}

/// Calls `SyntaxSet::find_syntax_by_first_line` on the bundled set and
/// reads the name of what it finds; named `first_line_syntax`.
#[verifier::external_body]
fn syntax_name_by_first_line(ss: &SyntaxSet, line: &str) -> (r: Option<String>)
    ensures
        opt_view(r) == first_line_syntax(line@),
        r matches Some(n) ==> syntax_names(*ss).contains(n@),
{
    ss.find_syntax_by_first_line(line).map(|s| s.name.clone())
}

/// Calls `SyntaxSet::find_syntax_by_name`: found exactly when a syntax of the
/// set has the name.
#[verifier::external_body]
fn syntax_named<'a>(ss: &'a SyntaxSet, name: &str) -> (r: Option<&'a SyntaxReference>)
    ensures
        r is Some <==> syntax_names(*ss).contains(name@),
{
    ss.find_syntax_by_name(name)
}

/// Calls `SyntaxSet::find_syntax_plain_text`, which panics unless the set
/// has a syntax named "Plain Text".
#[verifier::external_body]
fn plain_text_syntax<'a>(ss: &'a SyntaxSet) -> (r: &'a SyntaxReference)
    requires
        syntax_names(*ss).contains("Plain Text"@),
{
    ss.find_syntax_plain_text()
}

/// Calls `syntect::html::highlighted_html_for_string` with the syntax and
/// the theme of the given names (both present); named `syntect_html`.
#[verifier::external_body]
fn html_of_code(code: &str, ss: &SyntaxSet, syntax: &str, ts: &ThemeSet, theme: &str) -> (r: Result<String, syntect::Error>)
    requires
        syntax_names(*ss).contains(syntax@),
        theme_keys(*ts).contains(theme@),
    ensures
        match r {
            Ok(h) => syntect_html(code@, syntax@, theme@) == Some(h@),
            Err(_) => syntect_html(code@, syntax@, theme@) is None,
        },
{
    syntect::html::highlighted_html_for_string(code, ss, ss.find_syntax_by_name(syntax).unwrap(), &ts.themes[theme])
}

/// Calls `HighlightLines::new` with the syntax and the theme of the given
/// names (both present): a highlighter that has been given no line yet.
#[verifier::external_body]
fn line_highlighter<'a>(ss: &SyntaxSet, syntax: &str, ts: &'a ThemeSet, theme: &str) -> (r: HighlightLines<'a>)
    requires
        syntax_names(*ss).contains(syntax@),
        theme_keys(*ts).contains(theme@),
    ensures
        fed_lines(r) == Seq::<Seq<char>>::empty(),
        highlighter_syntax(r) == syntax@,
        highlighter_theme(r) == theme@,
{
    HighlightLines::new(ss.find_syntax_by_name(syntax).unwrap(), &ts.themes[theme])
}

/// Calls `HighlightLines::highlight_line` and converts each styled range to
/// a span; named `syntect_spans`.
#[verifier::external_body]
fn styled_spans(h: &mut HighlightLines, line: &str, ss: &SyntaxSet) -> (r: Result<Vec<StyleSpan>, syntect::Error>)
    ensures
        fed_lines(*final(h)) == fed_lines(*old(h)).push(line@),
        highlighter_syntax(*final(h)) == highlighter_syntax(*old(h)),
        highlighter_theme(*final(h)) == highlighter_theme(*old(h)),
        match r {
            Ok(v) => syntect_spans(fed_lines(*old(h)), line@, highlighter_syntax(*old(h)), highlighter_theme(*old(h)))
                == Some(v@.map_values(|s: StyleSpan| span_view(s))),
            Err(_) => syntect_spans(fed_lines(*old(h)), line@, highlighter_syntax(*old(h)), highlighter_theme(*old(h))) is None,
        },
{
    h.highlight_line(line, ss).map(|ranges| {
        ranges
            .into_iter()
            .map(|(style, text)| StyleSpan {
                text: text.to_string(),
                fg: Color::from_syntect(style.foreground),
                bg: Color::from_syntect(style.background),
                font_style: FontStyle::from_syntect(style.font_style),
            })
            .collect()
    })
}

/// Calls `HighlightLines::highlight_line` and `as_24_bit_terminal_escaped`
/// without background on its ranges; named `syntect_ansi_line`.
#[verifier::external_body]
fn ansi_line(h: &mut HighlightLines, line: &str, ss: &SyntaxSet) -> (r: Result<String, syntect::Error>)
    ensures
        fed_lines(*final(h)) == fed_lines(*old(h)).push(line@),
        highlighter_syntax(*final(h)) == highlighter_syntax(*old(h)),
        highlighter_theme(*final(h)) == highlighter_theme(*old(h)),
        match r {
            Ok(t) => syntect_ansi_line(fed_lines(*old(h)), line@, highlighter_syntax(*old(h)), highlighter_theme(*old(h)))
                == Some(t@),
            Err(_) => syntect_ansi_line(fed_lines(*old(h)), line@, highlighter_syntax(*old(h)), highlighter_theme(*old(h))) is None,
        },
{
    h.highlight_line(line, ss).map(|ranges| syntect::util::as_24_bit_terminal_escaped(&ranges[..], false))
}

/// Calls `HighlightLines::highlight_line` and
/// `styled_line_to_highlighted_html` without background on its ranges;
/// named `syntect_html_line`.
#[verifier::external_body]
fn html_line(h: &mut HighlightLines, line: &str, ss: &SyntaxSet) -> (r: Result<String, syntect::Error>)
    ensures
        fed_lines(*final(h)) == fed_lines(*old(h)).push(line@),
        highlighter_syntax(*final(h)) == highlighter_syntax(*old(h)),
        highlighter_theme(*final(h)) == highlighter_theme(*old(h)),
        match r {
            Ok(t) => syntect_html_line(fed_lines(*old(h)), line@, highlighter_syntax(*old(h)), highlighter_theme(*old(h)))
                == Some(t@),
            Err(_) => syntect_html_line(fed_lines(*old(h)), line@, highlighter_syntax(*old(h)), highlighter_theme(*old(h))) is None,
        },
{
    h.highlight_line(line, ss).and_then(|ranges| {
        syntect::html::styled_line_to_highlighted_html(&ranges[..], syntect::html::IncludeBackground::No)
    })
}

/// The message of a syntect error, by its `Display`.
#[verifier::external_body]
fn syntect_error_message(e: &syntect::Error) -> (r: String) {
    e.to_string()
}

/// Calls `Arc::clone`: another pointer to the same value.
#[verifier::external_body]
fn share<T>(a: &Arc<T>) -> (r: Arc<T>)
    ensures
        r == *a,
{
    Arc::clone(a)
}

impl Color {
    /// The colour of a syntect colour, channel for channel; nothing is
    /// claimed of the channels.
    #[verifier::external_body]
    pub fn from_syntect(c: SynColor) -> (r: Self) {
        Color { r: c.r, g: c.g, b: c.b, a: c.a }
    }
}

impl FontStyle {
    /// The bold, italic and underline flags of a syntect font style;
    /// nothing is claimed of them.
    #[verifier::external_body]
    pub fn from_syntect(style: SynFontStyle) -> (r: Self) {
        FontStyle {
            bold: style.contains(SynFontStyle::BOLD),
            italic: style.contains(SynFontStyle::ITALIC),
            underline: style.contains(SynFontStyle::UNDERLINE),
        }
    }
}

// ------------------------------------------------------------------
// The highlighter
// ------------------------------------------------------------------

/// The number of line `n` right-aligned in four columns, then a bar.
pub open spec fn line_number_prefix(n: nat) -> Seq<char> {
    pad_left(decimal(n), 4, ' ') + " | "@
}

/// Terminal output made of the escaped text of each line, one line each,
/// numbered from 1 when asked.
pub open spec fn ansi_text(pieces: Seq<Seq<char>>, numbered: bool) -> Seq<char>
    decreases pieces.len(),
{
    if pieces.len() == 0 {
        Seq::<char>::empty()
    } else {
        ansi_text(pieces.drop_last(), numbered) + (if numbered {
            line_number_prefix(pieces.len())
        } else {
            Seq::<char>::empty()
        }) + pieces.last() + "\n"@
    }
}

/// The lines that highlighting goes through: those of the truncated code.
pub open spec fn shown_lines(code: Seq<char>, max_lines: Option<usize>) -> Seq<Seq<char>> {
    lines(truncated_code(code, max_lines).0)
}

/// The first line of a text, as `str::lines` gives it.
pub open spec fn first_line_of(code: Seq<char>) -> Option<Seq<char>> {
    if lines(code).len() > 0 {
        Some(lines(code)[0])
    } else {
        None
    }
}

/// The view of an optional text.
pub open spec fn opt_str_view(o: Option<&str>) -> Option<Seq<char>> {
    match o {
        Some(s) => Some(s@),
        None => None,
    }
}

/// The syntax picked for a file: what the file lookup found, else the syntax
/// of its extension (leading dots dropped), else that of the first line,
/// else plain text.
pub open spec fn fallback_syntax(path: Seq<char>, first_line: Option<Seq<char>>) -> Seq<char> {
    match extension_syntax(trim_start_char(path, '.')) {
        Some(n) => n,
        None => match first_line {
            Some(l) => match first_line_syntax(l) {
                Some(n) => n,
                None => "Plain Text"@,
            },
            None => "Plain Text"@,
        },
    }
}

/// The terminal text of each shown line, highlighted in turn.
pub open spec fn ansi_pieces(ls: Seq<Seq<char>>, syntax: Seq<char>, theme: Seq<char>) -> Seq<Seq<char>> {
    Seq::new(ls.len(), |i: int| match syntect_ansi_line(ls.take(i), ls[i], syntax, theme) {
        Some(p) => p,
        None => Seq::<char>::empty(),
    })
}

/// Every shown line highlights to terminal text.
pub open spec fn ansi_all_ok(ls: Seq<Seq<char>>, syntax: Seq<char>, theme: Seq<char>) -> bool {
    forall|i: int| 0 <= i < ls.len() ==> (#[trigger] syntect_ansi_line(ls.take(i), ls[i], syntax, theme)) is Some
}

/// Thread-safe syntax highlighter over syntect's bundled syntaxes and
/// themes.
pub struct SyntaxHighlighter {
    ss: Arc<SyntaxSet>,
    ts: Arc<ThemeSet>,
}

impl SyntaxHighlighter {
    /// Highlighting can always fall back to plain text.
    #[verifier::type_invariant]
    closed spec fn has_plain_text(self) -> bool {
        syntax_names(*self.ss).contains("Plain Text"@)
    }

    /// The names of the available themes.
    pub closed spec fn themes(&self) -> Set<Seq<char>> {
        theme_keys(*self.ts)
    }

    /// The names of the known syntaxes, in order.
    pub closed spec fn syntaxes(&self) -> Seq<Seq<char>> {
        syntax_names(*self.ss)
    }

    /// Whether a theme can be used for the name: the named theme itself or
    /// the default dark one.
    pub open spec fn theme_available(&self, name: Seq<char>) -> bool {
        self.themes().contains(name) || self.themes().contains("base16-ocean.dark"@)
    }

    /// The theme used for the name: itself when present, else the default
    /// dark one.
    pub open spec fn theme_used(&self, name: Seq<char>) -> Seq<char> {
        if self.themes().contains(name) {
            name
        } else {
            "base16-ocean.dark"@
        }
    }

    /// Whether `name` is the syntax picked for a file: what the path alone
    /// gives when it gives one; else the syntax of the extension (leading
    /// dots dropped), of the first line, or plain text, unless the lookup by
    /// file read a first line from the disk and found a syntax for it.
    pub open spec fn picks(&self, name: Seq<char>, path: Seq<char>, first_line: Option<Seq<char>>) -> bool {
        match path_syntax(path) {
            Some(n) => name == n,
            None => name == fallback_syntax(path, first_line) || exists|l: Seq<char>|
                #[trigger] first_line_syntax(l) == Some(name),
        }
    }

    /// A highlighter with syntect's bundled syntaxes and themes.
    pub fn new() -> (r: Self)
        ensures
            r.themes() == default_theme_names(),
    {
        SyntaxHighlighter { ss: Arc::new(default_syntax_set()), ts: Arc::new(default_theme_set()) }
    }

    /// The names of the available themes, each once.
    pub fn list_themes(&self) -> (r: Vec<String>)
        ensures
            r@.map_values(|s: String| s@).to_set() == self.themes(),
            r@.map_values(|s: String| s@).no_duplicates(),
    {
        theme_key_list(&self.ts)
    }

    /// The names of the known syntaxes, in order.
    pub fn list_syntaxes(&self) -> (r: Vec<String>)
        ensures
            r@.map_values(|s: String| s@) == self.syntaxes(),
    {
        syntax_name_list(&self.ss)
    }

    /// The name of the syntax of a file: by its path, else by its extension
    /// (leading dots dropped), else by its first line, else plain text.
    fn syntax_choice(&self, extension_or_path: &str, first_line: Option<&str>) -> (r: String)
        ensures
            self.picks(r@, extension_or_path@, opt_str_view(first_line)),
            self.syntaxes().contains(r@),
    {
        proof {
            use_type_invariant(self);
        }
        let file = syntax_name_for_file(&self.ss, extension_or_path);
        if let Some(n) = file {
            return n;
        }
        assert(opt_view(file) is None);
        let ext = string_of(&trim_start_char_exec(&chars_of(extension_or_path), '.'));
        let by_ext = syntax_name_by_extension(&self.ss, ext.as_str());
        if let Some(n) = by_ext {
            assert(fallback_syntax(extension_or_path@, opt_str_view(first_line)) == n@);
            return n;
        }
        if let Some(line) = first_line {
            let by_line = syntax_name_by_first_line(&self.ss, line);
            if let Some(n) = by_line {
                assert(fallback_syntax(extension_or_path@, opt_str_view(first_line)) == n@);
                return n;
            }
        }
        let r = string_from("Plain Text");
        assert(fallback_syntax(extension_or_path@, opt_str_view(first_line)) == r@);
        r
    }

    /// The syntax of a file: by its path, else by its extension (leading
    /// dots dropped), else by its first line, else plain text. It is looked
    /// up by the name that `detect_language` gives; no clause states which
    /// syntax object comes back.
    pub fn find_syntax(&self, extension_or_path: &str, first_line: Option<&str>) -> &SyntaxReference {
        proof {
            use_type_invariant(self);
        }
        let name = self.syntax_choice(extension_or_path, first_line);
        match syntax_named(&self.ss, name.as_str()) {
            Some(s) => s,
            None => plain_text_syntax(&self.ss),
        }
    }

    /// The name of the syntax `find_syntax` picks.
    pub fn detect_language(&self, extension_or_path: &str, first_line: Option<&str>) -> (r: String)
        ensures
            self.picks(r@, extension_or_path@, opt_str_view(first_line)),
            self.syntaxes().contains(r@),
    {
        self.syntax_choice(extension_or_path, first_line)
    }

    /// The name of the theme to use: the named theme, else the default dark
    /// theme.
    fn theme_for(&self, theme_name: &str) -> (r: Result<String, SyntaxError>)
        ensures
            r is Ok <==> self.theme_available(theme_name@),
            r matches Ok(t) ==> t@ == self.theme_used(theme_name@) && self.themes().contains(t@),
            r matches Err(e) ==> e matches SyntaxError::ThemeNotFound(t) && t@ == theme_name@,
    {
        if theme_present(&self.ts, theme_name) {
            Ok(string_from(theme_name))
        } else {
            proof {
                reveal_strlit("base16-ocean.dark");
            }
            if theme_present(&self.ts, "base16-ocean.dark") {
                Ok(string_from("base16-ocean.dark"))
            } else {
                Err(SyntaxError::ThemeNotFound(string_from(theme_name)))
            }
        }
    }

    /// The syntax for a file and the theme of the options, by name.
    fn syntax_and_theme(&self, code: &str, extension_or_filename: &str, options: &HighlightOptions) -> (r: Result<(String, String), SyntaxError>)
        ensures
            r is Ok <==> self.theme_available(options.theme@),
            r matches Ok(p) ==> {
                &&& self.picks(p.0@, extension_or_filename@, first_line_of(code@))
                &&& self.syntaxes().contains(p.0@)
                &&& p.1@ == self.theme_used(options.theme@)
                &&& self.themes().contains(p.1@)
            },
            r matches Err(e) ==> e matches SyntaxError::ThemeNotFound(t) && t@ == options.theme@,
    {
        let cs = chars_of(code);
        let ls = lines_exec(&cs);
        let first: Option<String> = if ls.len() > 0 {
            Some(string_of(&ls[0]))
        } else {
            None
        };
        let syntax = match &first {
            Some(line) => self.syntax_choice(extension_or_filename, Some(line.as_str())),
            None => self.syntax_choice(extension_or_filename, None),
        };
        match self.theme_for(options.theme.as_str()) {
            Ok(theme) => Ok((syntax, theme)),
            Err(e) => Err(e),
        }
    }

    /// Highlights code to HTML with inline styles.
    pub fn highlight_to_html(&self, code: &str, extension_or_filename: &str, options: &HighlightOptions) -> (r: Result<HighlightedOutput, SyntaxError>)
        ensures
            match r {
                Ok(out) => {
                    &&& self.theme_available(options.theme@)
                    &&& self.picks(out.language@, extension_or_filename@, first_line_of(code@))
                    &&& syntect_html(truncated_code(code@, options.max_lines).0, out.language@, self.theme_used(options.theme@))
                        == Some(out.content@)
                    &&& out.line_count as nat == truncated_code(code@, options.max_lines).1
                    &&& out.truncated == truncated_code(code@, options.max_lines).2
                },
                Err(e) => if self.theme_available(options.theme@) {
                    &&& e is HighlightError
                    &&& exists|n: Seq<char>|
                        self.picks(n, extension_or_filename@, first_line_of(code@))
                            && (#[trigger] syntect_html(truncated_code(code@, options.max_lines).0, n, self.theme_used(options.theme@))) is None
                } else {
                    e matches SyntaxError::ThemeNotFound(t) && t@ == options.theme@
                },
            },
    {
        let (syntax, theme) = match self.syntax_and_theme(code, extension_or_filename, options) {
            Ok(p) => p,
            Err(e) => return Err(e),
        };
        let (truncated, line_count, was_truncated) = truncate_code(code, options.max_lines);
        let html = match html_of_code(truncated.as_str(), &self.ss, syntax.as_str(), &self.ts, theme.as_str()) {
            Ok(h) => h,
            Err(e) => return Err(SyntaxError::HighlightError(syntect_error_message(&e))),
        };
        Ok(HighlightedOutput { content: html, language: syntax, line_count, truncated: was_truncated })
    }

    /// Highlights code to terminal escapes, line by line, numbering the
    /// lines when the options ask for it.
    pub fn highlight_to_ansi(&self, code: &str, extension_or_filename: &str, options: &HighlightOptions) -> (r: Result<HighlightedOutput, SyntaxError>)
        ensures
            match r {
                Ok(out) => {
                    let ls = shown_lines(code@, options.max_lines);
                    let th = self.theme_used(options.theme@);
                    &&& self.theme_available(options.theme@)
                    &&& self.picks(out.language@, extension_or_filename@, first_line_of(code@))
                    &&& ansi_all_ok(ls, out.language@, th)
                    &&& out.content@ == ansi_text(ansi_pieces(ls, out.language@, th), options.render_line_numbers)
                    &&& out.line_count as nat == truncated_code(code@, options.max_lines).1
                    &&& out.truncated == truncated_code(code@, options.max_lines).2
                },
                Err(e) => if self.theme_available(options.theme@) {
                    &&& e is HighlightError
                    &&& exists|n: Seq<char>|
                        self.picks(n, extension_or_filename@, first_line_of(code@))
                            && !(#[trigger] ansi_all_ok(shown_lines(code@, options.max_lines), n, self.theme_used(options.theme@)))
                } else {
                    e matches SyntaxError::ThemeNotFound(t) && t@ == options.theme@
                },
            },
    {
        let (syntax, theme) = match self.syntax_and_theme(code, extension_or_filename, options) {
            Ok(p) => p,
            Err(e) => return Err(e),
        };
        let (truncated, line_count, was_truncated) = truncate_code(code, options.max_lines);
        let ls = lines_exec(&chars_of(truncated.as_str()));
        let ghost lv = views(ls@);
        let ghost th = theme@;
        let ghost syn = syntax@;
        let mut highlighter = line_highlighter(&self.ss, syntax.as_str(), &self.ts, theme.as_str());
        let mut content = String::new();
        let mut i: usize = 0;
        while i < ls.len()
            invariant
                i <= ls@.len(),
                lv == views(ls@),
                lv == shown_lines(code@, options.max_lines),
                self.theme_available(options.theme@),
                self.picks(syn, extension_or_filename@, first_line_of(code@)),
                th == self.theme_used(options.theme@),
                fed_lines(highlighter) == lv.take(i as int),
                highlighter_syntax(highlighter) == syn,
                highlighter_theme(highlighter) == th,
                forall|k: int| 0 <= k < i ==> (#[trigger] syntect_ansi_line(lv.take(k), lv[k], syn, th)) is Some,
                content@ == ansi_text(ansi_pieces(lv, syn, th).take(i as int), options.render_line_numbers),
            decreases ls.len() - i,
        {
            let line = string_of(&ls[i]);
            let ghost before = content@;
            let escaped = match ansi_line(&mut highlighter, line.as_str(), &self.ss) {
                Ok(t) => t,
                Err(e) => {
                    proof {
                        assert(line@ == lv[i as int]);
                        assert(syntect_ansi_line(lv.take(i as int), lv[i as int], syn, th) is None);
                        assert(!ansi_all_ok(lv, syn, th));
                    }
                    return Err(SyntaxError::HighlightError(syntect_error_message(&e)));
                },
            };
            if options.render_line_numbers {
                let number = decimal_string((i + 1) as u64);
                let width = chars_of(number.as_str()).len();
                if width < 4 {
                    push_repeated(&mut content, ' ', 4 - width);
                }
                append_str(&mut content, number.as_str());
                append_str(&mut content, " | ");
            }
            append_str(&mut content, escaped.as_str());
            push_char(&mut content, '\n');
            proof {
                let pieces = ansi_pieces(lv, syn, th);
                assert(pieces[i as int] == escaped@);
                assert(pieces.take(i + 1).drop_last() =~= pieces.take(i as int));
                assert(pieces.take(i + 1).last() == escaped@);
                reveal_strlit("\n");
                reveal_strlit(" | ");
                if options.render_line_numbers {
                    assert(content@ =~= before + line_number_prefix((i + 1) as nat) + escaped@ + "\n"@);
                } else {
                    assert(content@ =~= before + Seq::<char>::empty() + escaped@ + "\n"@);
                }
                assert(lv.take(i as int).push(lv[i as int]) =~= lv.take(i + 1));
            }
            i += 1;
        }
        proof {
            assert(ansi_pieces(lv, syn, th).take(lv.len() as int) =~= ansi_pieces(lv, syn, th));
        }
        Ok(HighlightedOutput { content, language: syntax, line_count, truncated: was_truncated })
    }

    /// Highlights code into styled spans, one numbered entry per line.
    pub fn highlight_to_lines(&self, code: &str, extension_or_filename: &str, options: &HighlightOptions) -> (r: Result<Vec<HighlightedLine>, SyntaxError>)
        ensures
            match r {
                Ok(v) => {
                    let ls = shown_lines(code@, options.max_lines);
                    let th = self.theme_used(options.theme@);
                    &&& self.theme_available(options.theme@)
                    &&& v@.len() == ls.len()
                    &&& exists|n: Seq<char>|
                        #![trigger self.picks(n, extension_or_filename@, first_line_of(code@))]
                        self.picks(n, extension_or_filename@, first_line_of(code@)) && forall|i: int|
                            0 <= i < v@.len() ==> #[trigger] syntect_spans(ls.take(i), ls[i], n, th) == Some(
                                v@[i].spans@.map_values(|s: StyleSpan| span_view(s)),
                            ) && v@[i].line_number == i + 1
                },
                Err(e) => if self.theme_available(options.theme@) {
                    &&& e is HighlightError
                    &&& exists|n: Seq<char>, i: int|
                        #![trigger self.picks(n, extension_or_filename@, first_line_of(code@)), shown_lines(code@, options.max_lines).take(i)]
                        self.picks(n, extension_or_filename@, first_line_of(code@)) && 0 <= i < shown_lines(code@, options.max_lines).len()
                            && syntect_spans(shown_lines(code@, options.max_lines).take(i), shown_lines(code@, options.max_lines)[i], n, self.theme_used(options.theme@)) is None
                } else {
                    e matches SyntaxError::ThemeNotFound(t) && t@ == options.theme@
                },
            },
    {
        let (syntax, theme) = match self.syntax_and_theme(code, extension_or_filename, options) {
            Ok(p) => p,
            Err(e) => return Err(e),
        };
        let (truncated, _count, _cut) = truncate_code(code, options.max_lines);
        let ls = lines_exec(&chars_of(truncated.as_str()));
        let ghost lv = views(ls@);
        let ghost th = theme@;
        let ghost syn = syntax@;
        let mut highlighter = line_highlighter(&self.ss, syntax.as_str(), &self.ts, theme.as_str());
        let mut out: Vec<HighlightedLine> = Vec::new();
        let mut i: usize = 0;
        while i < ls.len()
            invariant
                i <= ls@.len(),
                lv == views(ls@),
                lv == shown_lines(code@, options.max_lines),
                self.theme_available(options.theme@),
                self.picks(syn, extension_or_filename@, first_line_of(code@)),
                th == self.theme_used(options.theme@),
                fed_lines(highlighter) == lv.take(i as int),
                highlighter_syntax(highlighter) == syn,
                highlighter_theme(highlighter) == th,
                out@.len() == i,
                forall|k: int|
                    0 <= k < i ==> #[trigger] syntect_spans(lv.take(k), lv[k], syn, th) == Some(
                        out@[k].spans@.map_values(|s: StyleSpan| span_view(s)),
                    ) && out@[k].line_number == k + 1,
            decreases ls.len() - i,
        {
            let line = string_of(&ls[i]);
            let spans = match styled_spans(&mut highlighter, line.as_str(), &self.ss) {
                Ok(v) => v,
                Err(e) => {
                    proof {
                        assert(self.picks(syn, extension_or_filename@, first_line_of(code@)));
                        assert(syntect_spans(lv.take(i as int), lv[i as int], syn, th) is None);
                    }
                    return Err(SyntaxError::HighlightError(syntect_error_message(&e)));
                },
            };
            out.push(HighlightedLine { line_number: i + 1, spans });
            proof {
                assert(lv.take(i as int).push(lv[i as int]) =~= lv.take(i + 1));
            }
            i += 1;
        }
        proof {
            assert(self.picks(syn, extension_or_filename@, first_line_of(code@)));
        }
        Ok(out)
    }

    /// Highlights code into one HTML string per line.
    pub fn highlight_to_html_lines(&self, code: &str, extension_or_filename: &str, options: &HighlightOptions) -> (r: Result<Vec<String>, SyntaxError>)
        ensures
            match r {
                Ok(v) => {
                    let ls = shown_lines(code@, options.max_lines);
                    let th = self.theme_used(options.theme@);
                    &&& self.theme_available(options.theme@)
                    &&& v@.len() == ls.len()
                    &&& exists|n: Seq<char>|
                        #![trigger self.picks(n, extension_or_filename@, first_line_of(code@))]
                        self.picks(n, extension_or_filename@, first_line_of(code@)) && forall|i: int|
                            0 <= i < v@.len() ==> #[trigger] syntect_html_line(ls.take(i), ls[i], n, th) == Some(v@[i]@)
                },
                Err(e) => if self.theme_available(options.theme@) {
                    &&& e is HighlightError
                    &&& exists|n: Seq<char>, i: int|
                        #![trigger self.picks(n, extension_or_filename@, first_line_of(code@)), shown_lines(code@, options.max_lines).take(i)]
                        self.picks(n, extension_or_filename@, first_line_of(code@)) && 0 <= i < shown_lines(code@, options.max_lines).len()
                            && syntect_html_line(shown_lines(code@, options.max_lines).take(i), shown_lines(code@, options.max_lines)[i], n, self.theme_used(options.theme@)) is None
                } else {
                    e matches SyntaxError::ThemeNotFound(t) && t@ == options.theme@
                },
            },
    {
        let (syntax, theme) = match self.syntax_and_theme(code, extension_or_filename, options) {
            Ok(p) => p,
            Err(e) => return Err(e),
        };
        let (truncated, _count, _cut) = truncate_code(code, options.max_lines);
        let ls = lines_exec(&chars_of(truncated.as_str()));
        let ghost lv = views(ls@);
        let ghost th = theme@;
        let ghost syn = syntax@;
        let mut highlighter = line_highlighter(&self.ss, syntax.as_str(), &self.ts, theme.as_str());
        let mut out: Vec<String> = Vec::new();
        let mut i: usize = 0;
        while i < ls.len()
            invariant
                i <= ls@.len(),
                lv == views(ls@),
                lv == shown_lines(code@, options.max_lines),
                self.theme_available(options.theme@),
                self.picks(syn, extension_or_filename@, first_line_of(code@)),
                th == self.theme_used(options.theme@),
                fed_lines(highlighter) == lv.take(i as int),
                highlighter_syntax(highlighter) == syn,
                highlighter_theme(highlighter) == th,
                out@.len() == i,
                forall|k: int| 0 <= k < i ==> #[trigger] syntect_html_line(lv.take(k), lv[k], syn, th) == Some(out@[k]@),
            decreases ls.len() - i,
        {
            let line = string_of(&ls[i]);
            let html = match html_line(&mut highlighter, line.as_str(), &self.ss) {
                Ok(h) => h,
                Err(e) => {
                    proof {
                        assert(self.picks(syn, extension_or_filename@, first_line_of(code@)));
                        assert(syntect_html_line(lv.take(i as int), lv[i as int], syn, th) is None);
                    }
                    return Err(SyntaxError::HighlightError(syntect_error_message(&e)));
                },
            };
            out.push(html);
            proof {
                assert(lv.take(i as int).push(lv[i as int]) =~= lv.take(i + 1));
            }
            i += 1;
        }
        proof {
            assert(self.picks(syn, extension_or_filename@, first_line_of(code@)));
        }
        Ok(out)
    }
}

impl Clone for SyntaxHighlighter {
    /// Another highlighter sharing the same syntaxes and themes.
    fn clone(&self) -> (r: Self)
        ensures
            r.themes() == self.themes(),
            r.syntaxes() == self.syntaxes(),
    {
        proof {
            use_type_invariant(self);
        }
        SyntaxHighlighter { ss: share(&self.ss), ts: share(&self.ts) }
    }
}

impl Default for SyntaxHighlighter {
    fn default() -> (r: Self)
        ensures
            r.themes() == default_theme_names(),
    {
        SyntaxHighlighter::new()
    }
}

} // verus!
