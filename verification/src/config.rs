//! Lines of the configuration file: `name = value`.

use vstd::prelude::*;
use vstd::string::*;
use vstd::utf8::is_ascii_chars;
use crate::text::{
    ascii_lowercase_text, ascii_trim, lemma_ascii_subrange, lemma_ascii_trim_is_ascii, chars_of, first_piece, has_second_piece, lowercase_of, parse_unsigned, parse_unsigned_range,
    piece_ranges, range_equals, second_piece, to_lowercase, trim, trimmed,
};

verus! {

/// What one line of the configuration file sets.
#[derive(Debug, PartialEq, Eq)]
pub enum ConfigEntry {
    /// The Twitch channel to join.
    TwitchUsername(String),
    /// Seconds per voting round.
    Timer(usize),
    /// The display scaling, as written (a decimal number).
    ScreenScaling(String),
    /// A setting this program does not know.
    Ignored,
}

/// The setting a line names: the text before the first `=`, trimmed and in
/// lowercase.
pub open spec fn config_name(line: Seq<char>) -> Seq<char> {
    lowercase_of(trimmed(first_piece(line, '=')))
}

/// The value a line gives: the text between the first and the second `=`,
/// trimmed and in lowercase.
pub open spec fn config_value(line: Seq<char>) -> Seq<char> {
    lowercase_of(trimmed(second_piece(line, '=')))
}

/// On an ASCII line: the text before the first `=`, without surrounding
/// ASCII white space, in ASCII lowercase.
pub open spec fn ascii_config_name(line: Seq<char>) -> Seq<char> {
    ascii_lowercase_text(ascii_trim(first_piece(line, '=')))
}

/// On an ASCII line: the text between the first and the second `=`,
/// without surrounding ASCII white space, in ASCII lowercase.
pub open spec fn ascii_config_value(line: Seq<char>) -> Seq<char> {
    ascii_lowercase_text(ascii_trim(second_piece(line, '=')))
}

/// A line can be read: it holds an `=`, and a `timer` line's value is a
/// whole number that fits a `usize`.
pub open spec fn config_line_ok(line: Seq<char>) -> bool {
    &&& has_second_piece(line, '=')
    &&& config_name(line) == "timer"@ ==> parse_unsigned(config_value(line), usize::MAX as nat) is Some
}

/// `entry` is what the line sets: `twitch_username`, `timer` and
/// `screen_scaling` take the line's value, any other name is ignored.
pub open spec fn config_line_entry(line: Seq<char>, entry: ConfigEntry) -> bool {
    let name = config_name(line);
    let value = config_value(line);
    match entry {
        ConfigEntry::TwitchUsername(v) => name == "twitch_username"@ && v@ == value,
        ConfigEntry::Timer(n) => name == "timer"@ && parse_unsigned(value, usize::MAX as nat) == Some(
            n as nat,
        ),
        ConfigEntry::ScreenScaling(v) => name == "screen_scaling"@ && v@ == value,
        ConfigEntry::Ignored => name != "twitch_username"@ && name != "timer"@ && name
            != "screen_scaling"@,
    }
}

/// The line read, total: `None` where it cannot be read.
fn config_outcome(line: &str) -> (r: Option<ConfigEntry>)
    ensures
        r is None <==> !config_line_ok(line@),
        r matches Some(e) ==> config_line_entry(line@, e),
        is_ascii_chars(line@) ==> config_name(line@) == ascii_config_name(line@)
            && config_value(line@) == ascii_config_value(line@),
{
    let cs = chars_of(line);
    let (name_end, value_start, value_end) = piece_ranges(&cs, '=');
    let name_piece = line.substring_char(0, name_end);
    let value_piece = line.substring_char(value_start, value_end);
    let name_trimmed = trim(name_piece);
    let value_trimmed = trim(value_piece);
    proof {
        if is_ascii_chars(line@) {
            lemma_ascii_subrange(line@, 0, name_end as int);
            lemma_ascii_subrange(line@, value_start as int, value_end as int);
            lemma_ascii_trim_is_ascii(name_piece@);
            lemma_ascii_trim_is_ascii(value_piece@);
        }
    }
    let name = to_lowercase(name_trimmed);
    let value = to_lowercase(value_trimmed);
    if name_end == cs.len() {
        return None;
    }
    let name_cs = chars_of(name.as_str());
    proof {
        reveal_strlit("twitch_username");
        reveal_strlit("timer");
        reveal_strlit("screen_scaling");
    }
    assert(name_cs@.subrange(0, name_cs.len() as int) =~= name_cs@);
    if range_equals(&name_cs, 0, name_cs.len(), "twitch_username") {
        Some(ConfigEntry::TwitchUsername(value))
    } else if range_equals(&name_cs, 0, name_cs.len(), "timer") {
        let value_cs = chars_of(value.as_str());
        assert(value_cs@.subrange(0, value_cs.len() as int) =~= value_cs@);
        match parse_unsigned_range(&value_cs, 0, value_cs.len(), usize::MAX as u64) {
            Some(n) => Some(ConfigEntry::Timer(n as usize)),
            None => None,
        }
    } else if range_equals(&name_cs, 0, name_cs.len(), "screen_scaling") {
        Some(ConfigEntry::ScreenScaling(value))
    } else {
        Some(ConfigEntry::Ignored)
    }
}

/// What the configuration line `line` sets (see `config_line_entry`).
pub fn parse_config_line(line: &str) -> (r: ConfigEntry)
    requires
        config_line_ok(line@),
    ensures
        config_line_entry(line@, r),
        is_ascii_chars(line@) ==> config_name(line@) == ascii_config_name(line@)
            && config_value(line@) == ascii_config_value(line@),
{
    config_outcome(line).unwrap()
}

/// `parse_config_line` for any line: `None` where the line cannot be read
/// (see `config_line_ok`), else `Some` of what it sets.
pub fn checked_parse_config_line(line: &str) -> (r: Option<ConfigEntry>)
    ensures
        r is None <==> !config_line_ok(line@),
        r matches Some(e) ==> config_line_entry(line@, e),
        is_ascii_chars(line@) ==> config_name(line@) == ascii_config_name(line@)
            && config_value(line@) == ascii_config_value(line@),
{
    match config_outcome(line) {
        Some(_) => Some(parse_config_line(line)),
        None => None,
    }
}

/// The settings read so far from the configuration file. The display
/// scaling is kept as written; it is a decimal number that the program
/// reads itself.
pub struct Settings {
    pub twitch_username: String,
    pub timer: usize,
    pub screen_scaling: Option<String>,
}

impl Settings {
    /// The settings before any line is read: user name `USERNAME`, rounds
    /// of 10 seconds, no scaling given.
    pub fn new() -> (r: Settings)
        ensures
            r.twitch_username@ == "USERNAME"@,
            r.timer == 10,
            r.screen_scaling is None,
    {
        Settings { twitch_username: String::from_str("USERNAME"), timer: 10, screen_scaling: None }
    }

    /// Applies one line's entry: a later line overrides an earlier one, and
    /// an ignored entry changes nothing.
    pub fn apply(&mut self, entry: ConfigEntry)
        ensures
            match entry {
                ConfigEntry::TwitchUsername(v) => final(self).twitch_username == v
                    && final(self).timer == old(self).timer && final(self).screen_scaling
                    == old(self).screen_scaling,
                ConfigEntry::Timer(n) => final(self).timer == n && final(self).twitch_username
                    == old(self).twitch_username && final(self).screen_scaling
                    == old(self).screen_scaling,
                ConfigEntry::ScreenScaling(v) => final(self).screen_scaling == Some(v)
                    && final(self).twitch_username == old(self).twitch_username
                    && final(self).timer == old(self).timer,
                ConfigEntry::Ignored => *final(self) == *old(self),
            },
    {
        match entry {
            ConfigEntry::TwitchUsername(v) => {
                self.twitch_username = v;
            },
            ConfigEntry::Timer(n) => {
                self.timer = n;
            },
            ConfigEntry::ScreenScaling(v) => {
                self.screen_scaling = Some(v);
            },
            ConfigEntry::Ignored => {},
        }
    }
}

} // verus!
