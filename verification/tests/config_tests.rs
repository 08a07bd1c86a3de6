use twitch_plays_btd::config::{checked_parse_config_line, parse_config_line, ConfigEntry, Settings};

#[test]
fn known_settings() {
    assert_eq!(
        parse_config_line("twitch_username = MyChannel"),
        ConfigEntry::TwitchUsername("mychannel".to_string())
    );
    assert_eq!(parse_config_line("timer = 10"), ConfigEntry::Timer(10));
    assert_eq!(
        parse_config_line("screen_scaling = 1.25"),
        ConfigEntry::ScreenScaling("1.25".to_string())
    );
}

#[test]
fn names_and_values_are_trimmed_and_lowercased() {
    assert_eq!(parse_config_line("  TIMER\t=  +7  "), ConfigEntry::Timer(7));
    assert_eq!(
        parse_config_line(" Twitch_Username=USERNAME"),
        ConfigEntry::TwitchUsername("username".to_string())
    );
}

#[test]
fn only_the_text_up_to_a_second_equals_sign_is_the_value() {
    assert_eq!(
        parse_config_line("twitch_username = abc = def"),
        ConfigEntry::TwitchUsername("abc".to_string())
    );
}

#[test]
fn unknown_settings_are_ignored() {
    assert_eq!(parse_config_line("volume = 11"), ConfigEntry::Ignored);
    assert_eq!(parse_config_line("= 11"), ConfigEntry::Ignored);
}

#[test]
fn lines_that_cannot_be_read() {
    assert_eq!(checked_parse_config_line(""), None);
    assert_eq!(checked_parse_config_line("timer 10"), None);
    assert_eq!(checked_parse_config_line("timer = ten"), None);
    assert_eq!(checked_parse_config_line("timer = -1"), None);
    assert_eq!(checked_parse_config_line("timer = "), None);
    assert_eq!(checked_parse_config_line("timer = 99999999999999999999999"), None);
    assert_eq!(checked_parse_config_line("timer = 3"), Some(ConfigEntry::Timer(3)));
}

#[test]
fn the_default_file_reads_back() {
    let lines = ["twitch_username = USERNAME", "timer = 10", "screen_scaling = 1.0"];
    let entries: Vec<ConfigEntry> = lines.iter().map(|l| parse_config_line(l)).collect();
    assert_eq!(
        entries,
        vec![
            ConfigEntry::TwitchUsername("username".to_string()),
            ConfigEntry::Timer(10),
            ConfigEntry::ScreenScaling("1.0".to_string()),
        ]
    );
}

#[test]
fn settings_start_from_defaults_and_later_lines_win() {
    let mut settings = Settings::new();
    assert_eq!(settings.twitch_username, "USERNAME");
    assert_eq!(settings.timer, 10);
    assert_eq!(settings.screen_scaling, None);
    for line in ["timer = 5", "twitch_username = Streamer", "volume = 3", "timer = 20", "screen_scaling = 1.5"] {
        settings.apply(parse_config_line(line));
    }
    assert_eq!(settings.twitch_username, "streamer");
    assert_eq!(settings.timer, 20);
    assert_eq!(settings.screen_scaling, Some("1.5".to_string()));
}

#[test]
fn ascii_white_space_is_trimmed() {
    assert_eq!(parse_config_line("\x0b timer\x0c=\r12\t"), ConfigEntry::Timer(12));
}
