//! Which chat messages are votes: the vote syntax of each game phase.

use vstd::prelude::*;
use vstd::utf8::is_ascii_chars;
use crate::actions::{
    activation, tower_names_have_keys, tower_vote_activation, upgrade_vote_presses_its_path,
    GameAction,
};
use crate::location::{accepted_tile_in_play_area, ascii_tile, location_check, location_outcome};
use crate::text::{
    ascii_lower, ascii_lowercase_text, chars_of, command_text, digit_value, is_ascii_char,
    is_ascii_digit, is_lower_ascii, is_numeric, lemma_ascii_lowercase_is_lower,
    lemma_command_and_word, lemma_command_prefix, lemma_no_separator, lowercase_of, numeric_char,
    piece_ranges, range_equals, second_piece, starts_with, starts_with_literal, to_lowercase,
};

verus! {

/// The phase of the game: in the regular phase viewers vote for commands,
/// in the placement phase for the tile where the chosen tower goes.
#[derive(Clone, Copy, Debug, PartialEq, Eq, Structural)]
pub enum VotingPhase {
    Regular,
    Placement,
}

/// The tower names that a `tower` vote accepts.
pub open spec fn is_tower_name(w: Seq<char>) -> bool {
    ||| w == "hero"@
    ||| w == "dart"@
    ||| w == "boomerang"@
    ||| w == "bomb"@
    ||| w == "tack"@
    ||| w == "ice"@
    ||| w == "glue"@
    ||| w == "sniper"@
    ||| w == "sub"@
    ||| w == "buccaneer"@
    ||| w == "ace"@
    ||| w == "heli"@
    ||| w == "mortar"@
    ||| w == "gunner"@
    ||| w == "wizard"@
    ||| w == "super"@
    ||| w == "ninja"@
    ||| w == "alchemist"@
    ||| w == "druid"@
    ||| w == "farm"@
    ||| w == "factory"@
    ||| w == "village"@
    ||| w == "engineer"@
}

/// What checking the lowercase message `t` as a vote in `phase` gives:
/// `Some(accepted)`, or `None` where the check cannot handle the message (an
/// `ability ` vote without a word right after the space, or a tile name that
/// `location_check` cannot handle).
///
/// In the placement phase a vote is a tile name. In the regular phase it is
/// `tower <name>`, `upgrade <1|2|3>`, `select <tile>`, exactly `start`,
/// `speed`, `sell` or `targeting`, or `ability <word starting with a numeric
/// character>`; the word after the command is the text between the first
/// and the second space.
pub open spec fn vote_check(t: Seq<char>, phase: VotingPhase) -> Option<bool> {
    match phase {
        VotingPhase::Placement => location_check(t),
        VotingPhase::Regular => regular_vote_check(t),
    }
}

/// The vote check of the regular phase (see `vote_check`).
pub open spec fn regular_vote_check(t: Seq<char>) -> Option<bool> {
    let word = second_piece(t, ' ');
    if starts_with(t, "tower "@) {
        Some(is_tower_name(word))
    } else if starts_with(t, "upgrade "@) {
        Some(word == "1"@ || word == "2"@ || word == "3"@)
    } else if starts_with(t, "select "@) {
        location_check(word)
    } else if t == "start"@ || t == "speed"@ || t == "sell"@ || t == "targeting"@ {
        Some(true)
    } else if starts_with(t, "ability "@) {
        if word.len() == 0 {
            None
        } else {
            Some(numeric_char(word[0]))
        }
    } else {
        Some(false)
    }
}

/// The vote check on a lowercase ASCII message, spelled out without the
/// standard-library character tests: `vote_check` with the tile check read
/// as `ascii_tile` and "numeric" read as "an ASCII digit".
pub open spec fn ascii_vote_check(t: Seq<char>, phase: VotingPhase) -> Option<bool> {
    match phase {
        VotingPhase::Placement => Some(ascii_tile(t)),
        VotingPhase::Regular => ascii_regular_vote_check(t),
    }
}

/// `ascii_vote_check` in the regular phase.
pub open spec fn ascii_regular_vote_check(t: Seq<char>) -> Option<bool> {
    let word = second_piece(t, ' ');
    if starts_with(t, "tower "@) {
        Some(is_tower_name(word))
    } else if starts_with(t, "upgrade "@) {
        Some(word == "1"@ || word == "2"@ || word == "3"@)
    } else if starts_with(t, "select "@) {
        Some(ascii_tile(word))
    } else if t == "start"@ || t == "speed"@ || t == "sell"@ || t == "targeting"@ {
        Some(true)
    } else if starts_with(t, "ability "@) {
        if word.len() == 0 {
            None
        } else {
            Some(is_ascii_digit(word[0]))
        }
    } else {
        Some(false)
    }
}

/// An `ability ` vote with no word right after the space.
pub open spec fn empty_ability_vote(t: Seq<char>) -> bool {
    starts_with(t, "ability "@) && second_piece(t, ' ').len() == 0
}

fn is_tower_name_range(cs: &Vec<char>, start: usize, end: usize) -> (r: bool)
    requires
        start <= end <= cs.len(),
    ensures
        r == is_tower_name(cs@.subrange(start as int, end as int)),
{
    range_equals(cs, start, end, "hero") || range_equals(cs, start, end, "dart")
        || range_equals(cs, start, end, "boomerang") || range_equals(cs, start, end, "bomb")
        || range_equals(cs, start, end, "tack") || range_equals(cs, start, end, "ice")
        || range_equals(cs, start, end, "glue") || range_equals(cs, start, end, "sniper")
        || range_equals(cs, start, end, "sub") || range_equals(cs, start, end, "buccaneer")
        || range_equals(cs, start, end, "ace") || range_equals(cs, start, end, "heli")
        || range_equals(cs, start, end, "mortar") || range_equals(cs, start, end, "gunner")
        || range_equals(cs, start, end, "wizard") || range_equals(cs, start, end, "super")
        || range_equals(cs, start, end, "ninja") || range_equals(cs, start, end, "alchemist")
        || range_equals(cs, start, end, "druid") || range_equals(cs, start, end, "farm")
        || range_equals(cs, start, end, "factory") || range_equals(cs, start, end, "village")
        || range_equals(cs, start, end, "engineer")
}

/// The vote check on an already lowercase message, total: `None` where the
/// check cannot handle the message.
pub(crate) fn vote_outcome(t: &str, phase: &VotingPhase) -> (r: Option<bool>)
    ensures
        r == vote_check(t@, *phase),
        r == Some(true) && is_lower_ascii(t@) ==> activation(t@, *phase) is Some,
        r is None && is_ascii_chars(t@) ==> empty_ability_vote(t@),
        is_ascii_chars(t@) ==> r == ascii_vote_check(t@, *phase),
{
    match phase {
        VotingPhase::Placement => {
            let r = location_outcome(t);
            proof {
                if r == Some(true) && is_lower_ascii(t@) {
                    accepted_tile_in_play_area(t@);
                }
            }
            r
        },
        VotingPhase::Regular => regular_vote_outcome(t),
    }
}

fn regular_vote_outcome(t: &str) -> (r: Option<bool>)
    ensures
        r == regular_vote_check(t@),
        r == Some(true) && is_lower_ascii(t@) ==> activation(t@, VotingPhase::Regular) is Some,
        r is None && is_ascii_chars(t@) ==> empty_ability_vote(t@),
        is_ascii_chars(t@) ==> r == ascii_regular_vote_check(t@),
{
    let cs = chars_of(t);
    let (_, start, end) = piece_ranges(&cs, ' ');
    proof {
        reveal_strlit("tower ");
        reveal_strlit("tower");
        reveal_strlit("upgrade ");
        reveal_strlit("upgrade");
        reveal_strlit("select ");
        reveal_strlit("select");
        reveal_strlit("start");
        reveal_strlit("speed");
        reveal_strlit("sell");
        reveal_strlit("targeting");
        reveal_strlit("ability ");
        reveal_strlit("ability");
    }
    if starts_with_literal(&cs, "tower ") {
        proof {
            lemma_command_prefix(cs@, "tower "@, ' ');
            assert("tower "@.take(5) =~= "tower"@);
        }
        Some(is_tower_name_range(&cs, start, end))
    } else if starts_with_literal(&cs, "upgrade ") {
        proof {
            lemma_command_prefix(cs@, "upgrade "@, ' ');
            assert("upgrade "@.take(7) =~= "upgrade"@);
            assert("upgrade"@.len() != "tower"@.len());
        }
        Some(
            range_equals(&cs, start, end, "1") || range_equals(&cs, start, end, "2")
                || range_equals(&cs, start, end, "3"),
        )
    } else if starts_with_literal(&cs, "select ") {
        let word = t.substring_char(start, end);
        let r = location_outcome(word);
        proof {
            lemma_command_prefix(cs@, "select "@, ' ');
            assert("select "@.take(6) =~= "select"@);
            assert("select"@.len() != "tower"@.len());
            assert("select"@.len() != "upgrade"@.len());
            let w = word@;
            if is_ascii_chars(t@) {
                assert forall|i: int| 0 <= i < w.len() implies '\0' <= #[trigger] w[i] <= '\u{7f}' by {
                    assert(w[i] == t@[start + i]);
                }
            }
            if r == Some(true) && is_lower_ascii(t@) {
                assert(ascii_lowercase_text(w) =~= w) by {
                    assert forall|i: int| 0 <= i < w.len() implies ascii_lowercase_text(w)[i]
                        == w[i] by {
                        assert(w[i] == t@[start + i]);
                        assert(ascii_lowercase_text(t@)[start + i] == ascii_lower(t@[start + i]));
                    }
                }
                accepted_tile_in_play_area(w);
            }
        }
        r
    } else if range_equals(&cs, 0, cs.len(), "start") || range_equals(
        &cs,
        0,
        cs.len(),
        "speed",
    ) || range_equals(&cs, 0, cs.len(), "sell") || range_equals(
        &cs,
        0,
        cs.len(),
        "targeting",
    ) {
        assert(cs@.subrange(0, cs.len() as int) =~= cs@);
        proof {
            assert(forall|i: int| 0 <= i < cs@.len() ==> cs@[i] != ' ');
            lemma_no_separator(cs@, ' ');
            assert("start"@[0] != "tower"@[0]);
            assert("speed"@[0] != "tower"@[0]);
            assert("speed"@[1] != "start"@[1]);
        }
        Some(true)
    } else if starts_with_literal(&cs, "ability ") {
        proof {
            lemma_command_prefix(cs@, "ability "@, ' ');
            assert("ability "@.take(7) =~= "ability"@);
            assert("ability"@[0] != "upgrade"@[0]);
        }
        if start == end {
            None
        } else {
            assert(is_ascii_chars(t@) ==> is_ascii_char(cs@[start as int]));
            Some(is_numeric(cs[start]))
        }
    } else {
        assert(cs@.subrange(0, cs.len() as int) =~= cs@);
        Some(false)
    }
}

/// Whether `message_text` is a valid vote in `phase`; the check runs on the
/// message's lowercase form (see `vote_check`).
pub fn validate_vote(message_text: &str, phase: &VotingPhase) -> (r: bool)
    requires
        vote_check(lowercase_of(message_text@), *phase) is Some,
    ensures
        vote_check(lowercase_of(message_text@), *phase) == Some(r),
        *phase == VotingPhase::Placement ==> location_check(lowercase_of(message_text@)) == Some(r),
        is_ascii_chars(message_text@) ==> lowercase_of(message_text@) == ascii_lowercase_text(
            message_text@,
        ),
        is_ascii_chars(message_text@) ==> Some(r) == ascii_vote_check(
            ascii_lowercase_text(message_text@),
            *phase,
        ),
        r && is_ascii_chars(message_text@) ==> activation(lowercase_of(message_text@), *phase) is Some,
{
    let lowered = to_lowercase(message_text);
    proof {
        if is_ascii_chars(message_text@) {
            lemma_ascii_lowercase_is_lower(message_text@);
        }
    }
    vote_outcome(lowered.as_str(), phase).unwrap()
}

/// `validate_vote` for any message: `None` where the vote check cannot
/// handle the message, else `Some` of its answer.
pub fn checked_validate_vote(message_text: &str, phase: &VotingPhase) -> (r: Option<bool>)
    ensures
        r == vote_check(lowercase_of(message_text@), *phase),
        *phase == VotingPhase::Placement ==> r == location_check(lowercase_of(message_text@)),
        is_ascii_chars(message_text@) ==> lowercase_of(message_text@) == ascii_lowercase_text(
            message_text@,
        ),
        r == Some(true) && is_ascii_chars(message_text@) ==> activation(
            lowercase_of(message_text@),
            *phase,
        ) is Some,
        is_ascii_chars(message_text@) ==> r == ascii_vote_check(
            ascii_lowercase_text(message_text@),
            *phase,
        ),
        r is None && is_ascii_chars(message_text@) ==> empty_ability_vote(
            lowercase_of(message_text@),
        ),
{
    let lowered = to_lowercase(message_text);
    proof {
        if is_ascii_chars(message_text@) {
            lemma_ascii_lowercase_is_lower(message_text@);
        }
    }
    match vote_outcome(lowered.as_str(), phase) {
        Some(_) => Some(validate_vote(message_text, phase)),
        None => None,
    }
}

proof fn lemma_upgrade_words(w: Seq<char>)
    ensures
        (w == "1"@ || w == "2"@ || w == "3"@) == (w.len() == 1 && '1' <= w[0] <= '3'),
{
    reveal_strlit("1");
    reveal_strlit("2");
    reveal_strlit("3");
    if w.len() == 1 {
        if w[0] == '1' {
            assert(w =~= "1"@);
        } else if w[0] == '2' {
            assert(w =~= "2"@);
        } else if w[0] == '3' {
            assert(w =~= "3"@);
        }
    }
}

proof fn lemma_upgrade_prefix(w: Seq<char>)
    ensures
        !starts_with(command_text("upgrade"@, w), "tower "@),
        starts_with(command_text("upgrade"@, w), "upgrade "@),
{
    reveal_strlit("tower ");
    reveal_strlit("upgrade ");
    reveal_strlit("upgrade");
    let t = command_text("upgrade"@, w);
    assert(t[0] == 'u');
    assert(t.take(6)[0] != "tower "@[0]);
    assert(t.take(8) =~= "upgrade "@);
}

/// Law: in the regular phase an `upgrade <word>` message (a word without
/// spaces) is a vote exactly when, as the winning vote, it would press an
/// upgrade key: the word is `1`, `2` or `3`.
pub proof fn upgrade_vote_accepted_iff_it_presses_a_key(w: Seq<char>)
    requires
        forall|i: int| 0 <= i < w.len() ==> w[i] != ' ',
    ensures
        vote_check(command_text("upgrade"@, w), VotingPhase::Regular) == Some(
            activation(command_text("upgrade"@, w), VotingPhase::Regular) matches Some(
                (GameAction::Press(_), _),
            ),
        ),
        ascii_vote_check(command_text("upgrade"@, w), VotingPhase::Regular) == Some(
            activation(command_text("upgrade"@, w), VotingPhase::Regular) matches Some(
                (GameAction::Press(_), _),
            ),
        ),
        vote_check(command_text("upgrade"@, w), VotingPhase::Regular) == Some(
            w.len() == 1 && '1' <= w[0] <= '3',
        ),
{
    reveal_strlit("upgrade");
    assert(forall|i: int| 0 <= i < "upgrade"@.len() ==> "upgrade"@[i] != ' ');
    lemma_command_and_word("upgrade"@, w);
    lemma_upgrade_prefix(w);
    lemma_upgrade_words(w);
    upgrade_vote_presses_its_path(w);
}

/// Law: in the placement phase a message is a vote exactly when it names a
/// tile of the grid.
pub proof fn placement_votes_are_tile_names(t: Seq<char>)
    ensures
        vote_check(t, VotingPhase::Placement) == location_check(t),
        ascii_vote_check(t, VotingPhase::Placement) == Some(ascii_tile(t)),
{
}

/// Law: in the placement phase, every row letter `a` to `w` followed by a
/// column `1` to `9`, or by two digits reading 1 to 32, is a vote.
pub proof fn every_tile_name_is_a_placement_vote(row: char, d1: char, d2: char)
    requires
        'a' <= row <= 'w',
        is_ascii_digit(d1),
        is_ascii_digit(d2),
    ensures
        '1' <= d1 ==> ascii_vote_check(seq![row, d1], VotingPhase::Placement) == Some(true),
        1 <= digit_value(d1) * 10 + digit_value(d2) <= 32 ==> ascii_vote_check(
            seq![row, d1, d2],
            VotingPhase::Placement,
        ) == Some(true),
{
    assert(seq![row, d1][0] == row && seq![row, d1][1] == d1);
    assert(seq![row, d1, d2][0] == row && seq![row, d1, d2][1] == d1 && seq![row, d1, d2][2] == d2);
}

/// Law: in the regular phase a `tower <name>` message (a name without
/// spaces) is a vote exactly when, as the winning vote, it would press a
/// tower's hotkey.
pub proof fn tower_vote_accepted_iff_it_presses_a_key(name: Seq<char>)
    requires
        forall|i: int| 0 <= i < name.len() ==> name[i] != ' ',
    ensures
        vote_check(command_text("tower"@, name), VotingPhase::Regular) == Some(
            activation(command_text("tower"@, name), VotingPhase::Regular) matches Some(
                (GameAction::Press(_), _),
            ),
        ),
        ascii_vote_check(command_text("tower"@, name), VotingPhase::Regular) == Some(
            activation(command_text("tower"@, name), VotingPhase::Regular) matches Some(
                (GameAction::Press(_), _),
            ),
        ),
{
    reveal_strlit("tower");
    reveal_strlit("tower ");
    assert(forall|i: int| 0 <= i < "tower"@.len() ==> "tower"@[i] != ' ');
    lemma_command_and_word("tower"@, name);
    let t = command_text("tower"@, name);
    assert(t.take(6) =~= "tower "@);
    tower_vote_activation(name);
    tower_names_have_keys(name);
}

} // verus!
