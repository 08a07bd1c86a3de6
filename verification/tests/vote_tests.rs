use twitch_plays_btd::voting::{checked_validate_vote, validate_vote, VotingPhase};

#[test]
fn tower_votes() {
    assert!(validate_vote("tower bomb", &VotingPhase::Regular));
    assert!(validate_vote("Tower Bomb", &VotingPhase::Regular));
    assert!(validate_vote("TOWER ENGINEER", &VotingPhase::Regular));
    assert!(validate_vote("tower hero please", &VotingPhase::Regular));
    assert!(!validate_vote("tower bombs", &VotingPhase::Regular));
    assert!(!validate_vote("tower", &VotingPhase::Regular));
    assert!(!validate_vote("tower  bomb", &VotingPhase::Regular));
}

#[test]
fn every_tower_name_is_a_vote() {
    for name in [
        "hero", "dart", "boomerang", "bomb", "tack", "ice", "glue", "sniper", "sub", "buccaneer",
        "ace", "heli", "mortar", "gunner", "wizard", "super", "ninja", "alchemist", "druid",
        "farm", "factory", "village", "engineer",
    ] {
        assert!(validate_vote(&format!("tower {}", name), &VotingPhase::Regular));
    }
}

#[test]
fn placement_phase_takes_tiles_only() {
    assert!(validate_vote("a24", &VotingPhase::Placement));
    assert!(validate_vote("B7", &VotingPhase::Placement));
    assert!(!validate_vote("x7", &VotingPhase::Placement));
    assert!(!validate_vote("tower bomb", &VotingPhase::Placement));
    assert!(!validate_vote("start", &VotingPhase::Placement));
}

#[test]
fn regular_phase_refuses_bare_tiles() {
    assert!(!validate_vote("a24", &VotingPhase::Regular));
}

#[test]
fn upgrade_votes() {
    assert!(validate_vote("upgrade 1", &VotingPhase::Regular));
    assert!(validate_vote("upgrade 3", &VotingPhase::Regular));
    assert!(!validate_vote("upgrade 4", &VotingPhase::Regular));
    assert!(!validate_vote("upgrade", &VotingPhase::Regular));
}

#[test]
fn select_votes() {
    assert!(validate_vote("select b12", &VotingPhase::Regular));
    assert!(validate_vote("SELECT W1", &VotingPhase::Regular));
    assert!(!validate_vote("select z1", &VotingPhase::Regular));
    assert!(!validate_vote("select", &VotingPhase::Regular));
}

#[test]
fn single_word_votes() {
    for word in ["start", "speed", "sell", "targeting", "START"] {
        assert!(validate_vote(word, &VotingPhase::Regular));
    }
    assert!(!validate_vote("start now", &VotingPhase::Regular));
    assert!(!validate_vote("hello", &VotingPhase::Regular));
    assert!(!validate_vote("", &VotingPhase::Regular));
}

#[test]
fn ability_votes() {
    assert!(validate_vote("ability 3", &VotingPhase::Regular));
    assert!(validate_vote("ability 12", &VotingPhase::Regular));
    assert!(!validate_vote("ability x", &VotingPhase::Regular));
    // U+0663 ARABIC-INDIC DIGIT THREE is numeric.
    assert!(validate_vote("ability \u{663}", &VotingPhase::Regular));
}

#[test]
fn messages_the_check_cannot_handle() {
    assert_eq!(checked_validate_vote("ability ", &VotingPhase::Regular), None);
    assert_eq!(checked_validate_vote("ability  3", &VotingPhase::Regular), None);
    assert_eq!(checked_validate_vote("select a\u{b2}", &VotingPhase::Regular), None);
    assert_eq!(checked_validate_vote("ability 3", &VotingPhase::Regular), Some(true));
    assert_eq!(checked_validate_vote("hello", &VotingPhase::Regular), Some(false));
}
