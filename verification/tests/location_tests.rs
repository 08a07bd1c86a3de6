use twitch_plays_btd::location::{
    calculate_location, cancel_button_point, checked_validate_location, validate_location,
};

#[test]
fn tile_names_are_accepted() {
    assert!(validate_location("a24"));
    assert!(validate_location("w1"));
    assert!(validate_location("a32"));
    assert!(validate_location("a5"));
    assert!(validate_location("a05"));
}

#[test]
fn capital_row_letters_are_accepted() {
    assert!(validate_location("A24"));
    assert!(validate_location("W9"));
}

#[test]
fn column_characters_after_the_second_digit_are_not_read() {
    assert!(validate_location("a123"));
    assert!(validate_location("b12xyz"));
}

#[test]
fn non_tiles_are_refused() {
    assert!(!validate_location(""));
    assert!(!validate_location("a"));
    assert!(!validate_location("x5"));
    assert!(!validate_location("a0"));
    assert!(!validate_location("a00"));
    assert!(!validate_location("a33"));
    assert!(!validate_location("a5x"));
    assert!(!validate_location("5a"));
    assert!(!validate_location("tower bomb"));
}

#[test]
fn non_ascii_texts_the_check_cannot_handle() {
    // '²' is numeric, but the text has only two characters for three bytes.
    assert_eq!(checked_validate_location("a\u{b2}"), None);
    // '٣' is numeric but is no digit of the column number.
    assert_eq!(checked_validate_location("a\u{663}4"), None);
    // A second character that is not numeric is simply refused.
    assert_eq!(checked_validate_location("a\u{e9}"), Some(false));
    assert_eq!(checked_validate_location("b7"), Some(true));
}

#[test]
fn tile_screen_points() {
    assert_eq!(calculate_location("a1"), (58, 36));
    assert_eq!(calculate_location("b5"), (212, 72));
    assert_eq!(calculate_location("a12"), (480, 36));
    assert_eq!(calculate_location("w32"), (1248, 828));
    assert_eq!(calculate_location("c33"), (1287, 108));
}

#[test]
fn tile_screen_points_match_the_scaled_grid() {
    for column in 1u32..=32 {
        for (row, letter) in "abcdefghijklmnopqrstuvw".chars().enumerate() {
            let name = format!("{}{}", letter, column);
            let expected_x = ((1920 / 40 * column + 25) as f64 / 1.25).floor() as i32;
            let expected_y = ((1080 / 24 * (row as u32 + 1)) as f64 / 1.25).floor() as i32;
            assert!(validate_location(&name));
            assert_eq!(calculate_location(&name), (expected_x, expected_y));
        }
    }
}

#[test]
fn accepted_tiles_lie_in_the_play_area() {
    for column in 0u32..40 {
        for letter in "abcdefghijklmnopqrstuvwxyz".chars() {
            let name = format!("{}{}", letter, column);
            if validate_location(&name) {
                let (x, y) = calculate_location(&name);
                assert!(58 <= x && x <= 1248);
                assert!(36 <= y && y <= 828);
            }
        }
    }
}

#[test]
fn cancel_button_is_tile_c33() {
    assert_eq!(cancel_button_point(), (1287, 108));
    assert_eq!(cancel_button_point(), calculate_location("c33"));
}
