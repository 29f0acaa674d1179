//! The colour palette: six roles, each an RGB triple, resolved from
//! optional hex texts with a per-field and a whole-palette fallback.

use vstd::prelude::*;
use vstd::string::*;

verus! {

/// One colour as three 8-bit channels.
#[derive(Debug, Clone, Copy, PartialEq, Eq, Structural)]
pub struct RGB {
    pub red: u8,
    pub blue: u8,
    pub green: u8,
}

/// The colours of the six roles used when a listing is rendered.
#[derive(Debug, Clone, Copy, PartialEq, Eq, Structural)]
pub struct ColorConfig {
    pub title_row: RGB,
    pub leading_col: RGB,
    pub trailing_col: RGB,
    pub executable: RGB,
    pub directory: RGB,
    pub hidden: RGB,
}

/// The six colour texts as a settings source gives them; a role that the
/// source leaves out is `None`.
#[derive(Debug, Clone, PartialEq, Eq)]
pub struct SettingsFile {
    pub title_row: Option<String>,
    pub leading_col: Option<String>,
    pub trailing_col: Option<String>,
    pub executable: Option<String>,
    pub directory: Option<String>,
    pub hidden: Option<String>,
}

/// Why a colour text was not accepted.
#[derive(Debug, Clone, Copy, PartialEq, Eq, Structural)]
pub enum HexError {
    /// The text is not one marker character followed by six characters.
    Length,
    /// One of the six characters after the marker is not a hex digit.
    Digit,
}

/// The value of a hex digit, upper or lower case.
pub open spec fn hex_value(c: char) -> Option<u8> {
    if '0' <= c <= '9' {
        Some((c as u8 - '0' as u8) as u8)
    } else if 'a' <= c <= 'f' {
        Some((c as u8 - 'a' as u8 + 10) as u8)
    } else if 'A' <= c <= 'F' {
        Some((c as u8 - 'A' as u8 + 10) as u8)
    } else {
        None
    }
}

/// The channel written by the two hex digits `hi` and `lo`.
pub open spec fn channel_value(hi: char, lo: char) -> Option<u8> {
    match (hex_value(hi), hex_value(lo)) {
        (Some(h), Some(l)) => Some((h * 16 + l) as u8),
        _ => None,
    }
}

/// What a colour text parses to. A well-formed text is one marker
/// character followed by six hex digits: two for red, two for green, two
/// for blue.
pub open spec fn parse_hex(text: Seq<char>) -> Result<RGB, HexError> {
    if text.len() != 7 {
        Err(HexError::Length)
    } else {
        match (
            channel_value(text[1], text[2]),
            channel_value(text[3], text[4]),
            channel_value(text[5], text[6]),
        ) {
            (Some(r), Some(g), Some(b)) => Ok(RGB { red: r, blue: b, green: g }),
            _ => Err(HexError::Digit),
        }
    }
}

/// The dark gray that stands in for a colour text that does not parse.
pub open spec fn fallback_color() -> RGB {
    RGB { red: 10, blue: 10, green: 10 }
}

/// The colour a text resolves to: what it parses to, or the dark-gray
/// fallback.
pub open spec fn color_of(text: Seq<char>) -> RGB {
    match parse_hex(text) {
        Ok(rgb) => rgb,
        Err(_) => fallback_color(),
    }
}

/// The text that stands for a role the source leaves out: dark gray.
pub open spec fn absent_text() -> Seq<char> {
    seq!['#', '0', 'a', '0', 'a', '0', 'a']
}

/// The text of a role: its own, or the dark-gray text when it is absent.
pub open spec fn field_text(field: Option<String>) -> Seq<char> {
    match field {
        Some(s) => s@,
        None => absent_text(),
    }
}

/// The colour of a role: what its text resolves to.
pub open spec fn field_color(field: Option<String>) -> RGB {
    color_of(field_text(field))
}

/// The palette used when no settings source can be loaded.
pub open spec fn default_palette() -> ColorConfig {
    ColorConfig {
        title_row: RGB { red: 255, green: 0, blue: 255 },
        leading_col: RGB { red: 0, green: 255, blue: 255 },
        trailing_col: RGB { red: 255, green: 255, blue: 0 },
        executable: RGB { red: 10, green: 255, blue: 10 },
        directory: RGB { red: 10, green: 10, blue: 255 },
        hidden: RGB { red: 128, green: 128, blue: 128 },
    }
}

/// The palette a loaded source resolves to, role by role.
pub open spec fn resolved_palette(settings: SettingsFile) -> ColorConfig {
    ColorConfig {
        title_row: field_color(settings.title_row),
        leading_col: field_color(settings.leading_col),
        trailing_col: field_color(settings.trailing_col),
        executable: field_color(settings.executable),
        directory: field_color(settings.directory),
        hidden: field_color(settings.hidden),
    }
}

/// The palette for a source that may have failed to load.
pub open spec fn palette_of(source: Option<SettingsFile>) -> ColorConfig {
    match source {
        Some(settings) => resolved_palette(settings),
        None => default_palette(),
    }
}

/// Without a source the palette is the built-in one, which is not the
/// palette of a source whose six texts all fail.
pub proof fn lemma_missing_source_is_default(settings: SettingsFile)
    ensures
        palette_of(None) == default_palette(),
        color_of(field_text(settings.title_row)) == fallback_color() ==> palette_of(
            Some(settings),
        ) != palette_of(None),
{
}

/// A role that the source leaves out is dark gray.
pub proof fn lemma_absent_field_is_fallback()
    ensures
        parse_hex(absent_text()) == Ok::<RGB, HexError>(fallback_color()),
        field_color(None) == fallback_color(),
{
}

/// A palette resolved from six well-formed texts holds exactly the six
/// parsed colours.
pub proof fn lemma_valid_fields_resolve_exactly(settings: SettingsFile)
    requires
        parse_hex(field_text(settings.title_row)) is Ok,
        parse_hex(field_text(settings.leading_col)) is Ok,
        parse_hex(field_text(settings.trailing_col)) is Ok,
        parse_hex(field_text(settings.executable)) is Ok,
        parse_hex(field_text(settings.directory)) is Ok,
        parse_hex(field_text(settings.hidden)) is Ok,
    ensures
        Ok::<RGB, HexError>(resolved_palette(settings).title_row) == parse_hex(
            field_text(settings.title_row),
        ),
        Ok::<RGB, HexError>(resolved_palette(settings).leading_col) == parse_hex(
            field_text(settings.leading_col),
        ),
        Ok::<RGB, HexError>(resolved_palette(settings).trailing_col) == parse_hex(
            field_text(settings.trailing_col),
        ),
        Ok::<RGB, HexError>(resolved_palette(settings).executable) == parse_hex(
            field_text(settings.executable),
        ),
        Ok::<RGB, HexError>(resolved_palette(settings).directory) == parse_hex(
            field_text(settings.directory),
        ),
        Ok::<RGB, HexError>(resolved_palette(settings).hidden) == parse_hex(
            field_text(settings.hidden),
        ),
{
}

/// The fallback is per field: replacing the text of one role changes the
/// colour of that role and of no other, and a text that does not parse
/// gives that role the dark gray.
pub proof fn lemma_fallback_is_per_field(settings: SettingsFile, replaced: SettingsFile)
    ensures
        replaced.title_row == settings.title_row ==> resolved_palette(replaced).title_row
            == resolved_palette(settings).title_row,
        replaced.leading_col == settings.leading_col ==> resolved_palette(replaced).leading_col
            == resolved_palette(settings).leading_col,
        replaced.trailing_col == settings.trailing_col ==> resolved_palette(
            replaced,
        ).trailing_col == resolved_palette(settings).trailing_col,
        replaced.executable == settings.executable ==> resolved_palette(replaced).executable
            == resolved_palette(settings).executable,
        replaced.directory == settings.directory ==> resolved_palette(replaced).directory
            == resolved_palette(settings).directory,
        replaced.hidden == settings.hidden ==> resolved_palette(replaced).hidden
            == resolved_palette(settings).hidden,
        parse_hex(field_text(replaced.title_row)) is Err ==> resolved_palette(replaced).title_row
            == fallback_color(),
        parse_hex(field_text(replaced.leading_col)) is Err ==> resolved_palette(
            replaced,
        ).leading_col == fallback_color(),
        parse_hex(field_text(replaced.trailing_col)) is Err ==> resolved_palette(
            replaced,
        ).trailing_col == fallback_color(),
        parse_hex(field_text(replaced.executable)) is Err ==> resolved_palette(
            replaced,
        ).executable == fallback_color(),
        parse_hex(field_text(replaced.directory)) is Err ==> resolved_palette(replaced).directory
            == fallback_color(),
        parse_hex(field_text(replaced.hidden)) is Err ==> resolved_palette(replaced).hidden
            == fallback_color(),
{
}

/// The value of one hex digit.
fn hex_digit(c: char) -> (r: Option<u8>)
    ensures
        r == hex_value(c),
{
    if c >= '0' && c <= '9' {
        Some(c as u8 - '0' as u8)
    } else if c >= 'a' && c <= 'f' {
        Some(c as u8 - 'a' as u8 + 10)
    } else if c >= 'A' && c <= 'F' {
        Some(c as u8 - 'A' as u8 + 10)
    } else {
        None
    }
}

/// The channel written by two hex digits.
fn hex_channel(hi: char, lo: char) -> (r: Option<u8>)
    ensures
        r == channel_value(hi, lo),
{
    match (hex_digit(hi), hex_digit(lo)) {
        (Some(h), Some(l)) => Some(h * 16 + l),
        _ => None,
    }
}

/// Parses a colour text: a marker character, then six hex digits.
pub fn str_to_hex_converter(hex: &str) -> (r: Result<RGB, HexError>)
    ensures
        r == parse_hex(hex@),
{
    if hex.unicode_len() != 7 {
        return Err(HexError::Length);
    }
    let red = hex_channel(hex.get_char(1), hex.get_char(2));
    let green = hex_channel(hex.get_char(3), hex.get_char(4));
    let blue = hex_channel(hex.get_char(5), hex.get_char(6));
    match (red, green, blue) {
        (Some(r), Some(g), Some(b)) => Ok(RGB { red: r, blue: b, green: g }),
        _ => Err(HexError::Digit),
    }
}

/// Resolves a colour text, a text that does not parse giving the
/// dark-gray fallback.
pub fn str_to_hex(hex: String) -> (rgb: RGB)
    ensures
        rgb == color_of(hex@),
{
    match str_to_hex_converter(hex.as_str()) {
        Ok(rgb) => rgb,
        Err(_) => RGB { red: 10, blue: 10, green: 10 },
    }
}

/// Resolves the text of one role, an absent one standing for dark gray.
fn resolve_field(field: Option<String>) -> (rgb: RGB)
    ensures
        rgb == field_color(field),
{
    match field {
        Some(text) => str_to_hex(text),
        None => {
            proof {
                reveal_strlit("#0a0a0a");
                assert("#0a0a0a"@ =~= absent_text());
            }
            str_to_hex(String::from_str("#0a0a0a"))
        },
    }
}

impl SettingsFile {
    /// Resolves the six colour texts into a palette, each role by
    /// itself.
    pub fn to_color_config(self) -> (config: ColorConfig)
        ensures
            config == resolved_palette(self),
    {
        ColorConfig {
            title_row: resolve_field(self.title_row),
            leading_col: resolve_field(self.leading_col),
            trailing_col: resolve_field(self.trailing_col),
            executable: resolve_field(self.executable),
            directory: resolve_field(self.directory),
            hidden: resolve_field(self.hidden),
        }
    }
}

/// Builds the palette from what loading the settings source gave: the
/// resolved colours of a loaded source, or the built-in palette when
/// nothing could be loaded. Always succeeds.
pub fn reading_config(source: Option<SettingsFile>) -> (config: ColorConfig)
    ensures
        config == palette_of(source),
{
    match source {
        Some(file_config) => file_config.to_color_config(),
        None => ColorConfig {
            title_row: RGB { red: 255, green: 0, blue: 255 },
            leading_col: RGB { red: 0, green: 255, blue: 255 },
            trailing_col: RGB { red: 255, green: 255, blue: 0 },
            executable: RGB { red: 10, green: 255, blue: 10 },
            directory: RGB { red: 10, green: 10, blue: 255 },
            hidden: RGB { red: 128, green: 128, blue: 128 },
        },
    }
}

} // verus!
