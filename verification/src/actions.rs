//! What a winning vote does to the game: the key press or mouse action it
//! causes, and the phase the game is in afterwards.

use vstd::prelude::*;
use crate::location::{location_check, location_outcome, location_point, point_outcome};
use crate::text::{
    chars_of, command_text, digit_value, first_piece, has_second_piece, lemma_command_and_word,
    piece_ranges, range_equals, second_piece,
};
use crate::voting::{is_tower_name, VotingPhase};

verus! {

/// The keyboard keys that votes press.
#[derive(Clone, Copy, Debug, PartialEq, Eq, Structural)]
pub enum Key {
    A,
    B,
    C,
    D,
    E,
    F,
    G,
    H,
    J,
    K,
    L,
    M,
    N,
    Q,
    R,
    S,
    T,
    U,
    V,
    W,
    X,
    Y,
    Z,
    Comma,
    Period,
    Slash,
    Space,
    BackSpace,
    Tab,
    Number1,
    Number2,
    Number3,
    Number4,
    Number5,
    Number6,
    Number7,
    Number8,
    Number9,
}

/// What the game is told to do.
#[derive(Clone, Copy, Debug, PartialEq, Eq, Structural)]
pub enum GameAction {
    /// Nothing happens.
    Idle,
    /// Press (click) one key.
    Press(Key),
    /// Place the tower in hand at screen point `(x, y)`: move there and
    /// click, then click the cancel button in case the tower was not placed.
    PlaceTower { x: i32, y: i32 },
    /// Select the tower at screen point `(x, y)`: click an empty spot to
    /// deselect, then click the point.
    SelectTower { x: i32, y: i32 },
}

/// The hotkey that picks up the tower named `w`.
pub open spec fn tower_key(w: Seq<char>) -> Option<Key> {
    if w == "hero"@ {
        Some(Key::U)
    } else if w == "dart"@ {
        Some(Key::Q)
    } else if w == "boomerang"@ {
        Some(Key::W)
    } else if w == "bomb"@ {
        Some(Key::E)
    } else if w == "tack"@ {
        Some(Key::R)
    } else if w == "ice"@ {
        Some(Key::T)
    } else if w == "glue"@ {
        Some(Key::Y)
    } else if w == "sniper"@ {
        Some(Key::Z)
    } else if w == "sub"@ {
        Some(Key::X)
    } else if w == "buccaneer"@ {
        Some(Key::C)
    } else if w == "ace"@ {
        Some(Key::V)
    } else if w == "heli"@ {
        Some(Key::B)
    } else if w == "mortar"@ {
        Some(Key::N)
    } else if w == "gunner"@ {
        Some(Key::M)
    } else if w == "wizard"@ {
        Some(Key::A)
    } else if w == "super"@ {
        Some(Key::S)
    } else if w == "ninja"@ {
        Some(Key::D)
    } else if w == "alchemist"@ {
        Some(Key::F)
    } else if w == "druid"@ {
        Some(Key::G)
    } else if w == "farm"@ {
        Some(Key::H)
    } else if w == "engineer"@ {
        Some(Key::L)
    } else if w == "factory"@ {
        Some(Key::J)
    } else if w == "village"@ {
        Some(Key::K)
    } else {
        None
    }
}

/// The hotkey of upgrade path `w` (`1`, `2` or `3`).
pub open spec fn upgrade_key(w: Seq<char>) -> Option<Key> {
    if w == "1"@ {
        Some(Key::Comma)
    } else if w == "2"@ {
        Some(Key::Period)
    } else if w == "3"@ {
        Some(Key::Slash)
    } else {
        None
    }
}

/// The hotkey of ability `w` (`1` to `9`).
pub open spec fn ability_key(w: Seq<char>) -> Option<Key> {
    if w == "1"@ {
        Some(Key::Number1)
    } else if w == "2"@ {
        Some(Key::Number2)
    } else if w == "3"@ {
        Some(Key::Number3)
    } else if w == "4"@ {
        Some(Key::Number4)
    } else if w == "5"@ {
        Some(Key::Number5)
    } else if w == "6"@ {
        Some(Key::Number6)
    } else if w == "7"@ {
        Some(Key::Number7)
    } else if w == "8"@ {
        Some(Key::Number8)
    } else if w == "9"@ {
        Some(Key::Number9)
    } else {
        None
    }
}

/// Pressing `key` if there is one, else nothing.
pub open spec fn press_or_idle(key: Option<Key>) -> GameAction {
    match key {
        Some(k) => GameAction::Press(k),
        None => GameAction::Idle,
    }
}

/// What the winning vote `t` does in `phase`: the action and the phase that
/// follows, or `None` where the vote cannot be acted on (a command that needs
/// a second word but has no space, a tile check that cannot handle the text,
/// or a tile whose screen point cannot be computed).
///
/// The command is the text before the first space, its argument the text
/// between the first and the second space. In the regular phase `tower`
/// presses the tower's hotkey and starts the placement phase; `upgrade`,
/// `start`/`speed`, `sell`, `targeting` and `ability` press their keys;
/// `select` selects the tower on a tile. In the placement phase a tile name
/// places the tower there and returns to the regular phase. Anything else
/// does nothing.
pub open spec fn activation(t: Seq<char>, phase: VotingPhase) -> Option<(GameAction, VotingPhase)> {
    let command = first_piece(t, ' ');
    let word = second_piece(t, ' ');
    let has_word = has_second_piece(t, ' ');
    if phase == VotingPhase::Regular && command == "tower"@ {
        if has_word {
            Some((press_or_idle(tower_key(word)), VotingPhase::Placement))
        } else {
            None
        }
    } else if phase == VotingPhase::Placement {
        match location_check(t) {
            None => None,
            Some(false) => Some((GameAction::Idle, VotingPhase::Placement)),
            Some(true) => match location_point(t) {
                Some(p) => Some(
                    (GameAction::PlaceTower { x: p.0 as i32, y: p.1 as i32 }, VotingPhase::Regular),
                ),
                None => None,
            },
        }
    } else {
        regular_activation(t)
    }
}

/// `activation` in the regular phase for every command but `tower`.
pub open spec fn regular_activation(t: Seq<char>) -> Option<(GameAction, VotingPhase)> {
    let command = first_piece(t, ' ');
    let word = second_piece(t, ' ');
    let has_word = has_second_piece(t, ' ');
    if command == "upgrade"@ {
        if has_word {
            Some((press_or_idle(upgrade_key(word)), VotingPhase::Regular))
        } else {
            None
        }
    } else if command == "select"@ {
        if has_word {
            match location_point(word) {
                Some(p) => Some(
                    (GameAction::SelectTower { x: p.0 as i32, y: p.1 as i32 }, VotingPhase::Regular),
                ),
                None => None,
            }
        } else {
            None
        }
    } else if command == "start"@ || command == "speed"@ {
        Some((GameAction::Press(Key::Space), VotingPhase::Regular))
    } else if command == "sell"@ {
        Some((GameAction::Press(Key::BackSpace), VotingPhase::Regular))
    } else if command == "targeting"@ {
        Some((GameAction::Press(Key::Tab), VotingPhase::Regular))
    } else if command == "ability"@ {
        if has_word {
            Some((press_or_idle(ability_key(word)), VotingPhase::Regular))
        } else {
            None
        }
    } else {
        Some((GameAction::Idle, VotingPhase::Regular))
    }
}

fn tower_key_range(cs: &Vec<char>, start: usize, end: usize) -> (r: Option<Key>)
    requires
        start <= end <= cs.len(),
    ensures
        r == tower_key(cs@.subrange(start as int, end as int)),
{
    if range_equals(cs, start, end, "hero") {
        Some(Key::U)
    } else if range_equals(cs, start, end, "dart") {
        Some(Key::Q)
    } else if range_equals(cs, start, end, "boomerang") {
        Some(Key::W)
    } else if range_equals(cs, start, end, "bomb") {
        Some(Key::E)
    } else if range_equals(cs, start, end, "tack") {
        Some(Key::R)
    } else if range_equals(cs, start, end, "ice") {
        Some(Key::T)
    } else if range_equals(cs, start, end, "glue") {
        Some(Key::Y)
    } else if range_equals(cs, start, end, "sniper") {
        Some(Key::Z)
    } else if range_equals(cs, start, end, "sub") {
        Some(Key::X)
    } else if range_equals(cs, start, end, "buccaneer") {
        Some(Key::C)
    } else if range_equals(cs, start, end, "ace") {
        Some(Key::V)
    } else if range_equals(cs, start, end, "heli") {
        Some(Key::B)
    } else if range_equals(cs, start, end, "mortar") {
        Some(Key::N)
    } else if range_equals(cs, start, end, "gunner") {
        Some(Key::M)
    } else if range_equals(cs, start, end, "wizard") {
        Some(Key::A)
    } else if range_equals(cs, start, end, "super") {
        Some(Key::S)
    } else if range_equals(cs, start, end, "ninja") {
        Some(Key::D)
    } else if range_equals(cs, start, end, "alchemist") {
        Some(Key::F)
    } else if range_equals(cs, start, end, "druid") {
        Some(Key::G)
    } else if range_equals(cs, start, end, "farm") {
        Some(Key::H)
    } else if range_equals(cs, start, end, "engineer") {
        Some(Key::L)
    } else if range_equals(cs, start, end, "factory") {
        Some(Key::J)
    } else if range_equals(cs, start, end, "village") {
        Some(Key::K)
    } else {
        None
    }
}

fn upgrade_key_range(cs: &Vec<char>, start: usize, end: usize) -> (r: Option<Key>)
    requires
        start <= end <= cs.len(),
    ensures
        r == upgrade_key(cs@.subrange(start as int, end as int)),
{
    if range_equals(cs, start, end, "1") {
        Some(Key::Comma)
    } else if range_equals(cs, start, end, "2") {
        Some(Key::Period)
    } else if range_equals(cs, start, end, "3") {
        Some(Key::Slash)
    } else {
        None
    }
}

fn ability_key_range(cs: &Vec<char>, start: usize, end: usize) -> (r: Option<Key>)
    requires
        start <= end <= cs.len(),
    ensures
        r == ability_key(cs@.subrange(start as int, end as int)),
{
    if range_equals(cs, start, end, "1") {
        Some(Key::Number1)
    } else if range_equals(cs, start, end, "2") {
        Some(Key::Number2)
    } else if range_equals(cs, start, end, "3") {
        Some(Key::Number3)
    } else if range_equals(cs, start, end, "4") {
        Some(Key::Number4)
    } else if range_equals(cs, start, end, "5") {
        Some(Key::Number5)
    } else if range_equals(cs, start, end, "6") {
        Some(Key::Number6)
    } else if range_equals(cs, start, end, "7") {
        Some(Key::Number7)
    } else if range_equals(cs, start, end, "8") {
        Some(Key::Number8)
    } else if range_equals(cs, start, end, "9") {
        Some(Key::Number9)
    } else {
        None
    }
}

fn press_or_idle_exec(key: Option<Key>) -> (r: GameAction)
    ensures
        r == press_or_idle(key),
{
    match key {
        Some(k) => GameAction::Press(k),
        None => GameAction::Idle,
    }
}

fn regular_activation_outcome(t: &str) -> (r: Option<(GameAction, VotingPhase)>)
    ensures
        r == regular_activation(t@),
{
    let cs = chars_of(t);
    let (command_end, start, end) = piece_ranges(&cs, ' ');
    let has_word = command_end < cs.len();
    if range_equals(&cs, 0, command_end, "upgrade") {
        if has_word {
            Some((press_or_idle_exec(upgrade_key_range(&cs, start, end)), VotingPhase::Regular))
        } else {
            None
        }
    } else if range_equals(&cs, 0, command_end, "select") {
        if has_word {
            let word = t.substring_char(start, end);
            match point_outcome(word) {
                Some(p) => Some((GameAction::SelectTower { x: p.0, y: p.1 }, VotingPhase::Regular)),
                None => None,
            }
        } else {
            None
        }
    } else if range_equals(&cs, 0, command_end, "start") || range_equals(
        &cs,
        0,
        command_end,
        "speed",
    ) {
        Some((GameAction::Press(Key::Space), VotingPhase::Regular))
    } else if range_equals(&cs, 0, command_end, "sell") {
        Some((GameAction::Press(Key::BackSpace), VotingPhase::Regular))
    } else if range_equals(&cs, 0, command_end, "targeting") {
        Some((GameAction::Press(Key::Tab), VotingPhase::Regular))
    } else if range_equals(&cs, 0, command_end, "ability") {
        if has_word {
            Some((press_or_idle_exec(ability_key_range(&cs, start, end)), VotingPhase::Regular))
        } else {
            None
        }
    } else {
        Some((GameAction::Idle, VotingPhase::Regular))
    }
}

/// `activation` computed, total: `None` where the vote cannot be acted on.
pub(crate) fn activation_outcome(t: &str, phase: VotingPhase) -> (r: Option<(GameAction, VotingPhase)>)
    ensures
        r == activation(t@, phase),
{
    let cs = chars_of(t);
    let (command_end, start, end) = piece_ranges(&cs, ' ');
    if phase == VotingPhase::Regular && range_equals(&cs, 0, command_end, "tower") {
        if command_end < cs.len() {
            Some((press_or_idle_exec(tower_key_range(&cs, start, end)), VotingPhase::Placement))
        } else {
            None
        }
    } else if phase == VotingPhase::Placement {
        match location_outcome(t) {
            None => None,
            Some(false) => Some((GameAction::Idle, VotingPhase::Placement)),
            Some(true) => match point_outcome(t) {
                Some(p) => Some((GameAction::PlaceTower { x: p.0, y: p.1 }, VotingPhase::Regular)),
                None => None,
            },
        }
    } else {
        regular_activation_outcome(t)
    }
}

/// Acts on the winning vote `final_vote`: returns what the game is told to
/// do and moves `phase` on (see `activation`).
pub(crate) fn activate_vote(final_vote: String, phase: &mut VotingPhase) -> (action: GameAction)
    requires
        activation(final_vote@, *old(phase)) is Some,
    ensures
        activation(final_vote@, *old(phase)) == Some((action, *final(phase))),
{
    let (action, next) = activation_outcome(final_vote.as_str(), *phase).unwrap();
    *phase = next;
    action
}

/// Law: every tower name that a `tower` vote accepts has a hotkey, and only
/// those names have one.
pub proof fn tower_names_have_keys(w: Seq<char>)
    ensures
        is_tower_name(w) <==> tower_key(w) is Some,
{
}

/// Law: the game enters the placement phase only through a `tower` vote in
/// the regular phase, and leaves it only by placing a tower; a placement
/// vote that is not a tile changes nothing.
pub proof fn phase_transitions(t: Seq<char>)
    ensures
        activation(t, VotingPhase::Regular) matches Some((a, next)) ==> (next
            == VotingPhase::Placement <==> first_piece(t, ' ') == "tower"@),
        activation(t, VotingPhase::Placement) matches Some((a, next)) ==> {
            &&& (next == VotingPhase::Regular <==> a is PlaceTower)
            &&& next == VotingPhase::Placement ==> a == GameAction::Idle
        },
{
}

/// The game's hotkey of each tower.
pub open spec fn tower_hotkey_table() -> Seq<(Seq<char>, Key)> {
    seq![
        ("hero"@, Key::U),
        ("dart"@, Key::Q),
        ("boomerang"@, Key::W),
        ("bomb"@, Key::E),
        ("tack"@, Key::R),
        ("ice"@, Key::T),
        ("glue"@, Key::Y),
        ("sniper"@, Key::Z),
        ("sub"@, Key::X),
        ("buccaneer"@, Key::C),
        ("ace"@, Key::V),
        ("heli"@, Key::B),
        ("mortar"@, Key::N),
        ("gunner"@, Key::M),
        ("wizard"@, Key::A),
        ("super"@, Key::S),
        ("ninja"@, Key::D),
        ("alchemist"@, Key::F),
        ("druid"@, Key::G),
        ("farm"@, Key::H),
        ("engineer"@, Key::L),
        ("factory"@, Key::J),
        ("village"@, Key::K),
    ]
}

/// The number a number-row key stands for.
pub open spec fn number_key_value(k: Key) -> Option<int> {
    match k {
        Key::Number1 => Some(1),
        Key::Number2 => Some(2),
        Key::Number3 => Some(3),
        Key::Number4 => Some(4),
        Key::Number5 => Some(5),
        Key::Number6 => Some(6),
        Key::Number7 => Some(7),
        Key::Number8 => Some(8),
        Key::Number9 => Some(9),
        _ => None,
    }
}

/// The upgrade path (1 to 3) that a key stands for: `,` `.` `/`.
pub open spec fn upgrade_path_of_key(k: Key) -> Option<int> {
    match k {
        Key::Comma => Some(1),
        Key::Period => Some(2),
        Key::Slash => Some(3),
        _ => None,
    }
}

proof fn lemma_literals_have_no_space()
    ensures
        forall|i: int| 0 <= i < "tower"@.len() ==> "tower"@[i] != ' ',
        forall|i: int| 0 <= i < "upgrade"@.len() ==> "upgrade"@[i] != ' ',
        forall|i: int| 0 <= i < "ability"@.len() ==> "ability"@[i] != ' ',
{
    reveal_strlit("tower");
    reveal_strlit("upgrade");
    reveal_strlit("ability");
}

/// Law: a `tower <name>` vote in the regular phase (a name without spaces)
/// presses that tower's hotkey, if the name has one, and starts the
/// placement phase.
pub proof fn tower_vote_activation(name: Seq<char>)
    requires
        forall|i: int| 0 <= i < name.len() ==> name[i] != ' ',
    ensures
        activation(command_text("tower"@, name), VotingPhase::Regular) == Some(
            (press_or_idle(tower_key(name)), VotingPhase::Placement),
        ),
{
    lemma_literals_have_no_space();
    lemma_command_and_word("tower"@, name);
}

/// Law: each of the game's towers is picked up by its own hotkey, as the
/// game's table gives it: a `tower <name>` vote presses that key.
pub proof fn tower_hotkeys_follow_the_table()
    ensures
        forall|i: int|
            0 <= i < tower_hotkey_table().len() ==> activation(
                command_text("tower"@, #[trigger] tower_hotkey_table()[i].0),
                VotingPhase::Regular,
            ) == Some((GameAction::Press(tower_hotkey_table()[i].1), VotingPhase::Placement)),
{
    reveal_strlit("hero");
    reveal_strlit("dart");
    reveal_strlit("boomerang");
    reveal_strlit("bomb");
    reveal_strlit("tack");
    reveal_strlit("ice");
    reveal_strlit("glue");
    reveal_strlit("sniper");
    reveal_strlit("sub");
    reveal_strlit("buccaneer");
    reveal_strlit("ace");
    reveal_strlit("heli");
    reveal_strlit("mortar");
    reveal_strlit("gunner");
    reveal_strlit("wizard");
    reveal_strlit("super");
    reveal_strlit("ninja");
    reveal_strlit("alchemist");
    reveal_strlit("druid");
    reveal_strlit("farm");
    reveal_strlit("engineer");
    reveal_strlit("factory");
    reveal_strlit("village");
    // The names differ by length, or else by a letter.
    assert("hero"@.len() == 4);
    assert("dart"@.len() == 4);
    assert("boomerang"@.len() == 9);
    assert("bomb"@.len() == 4);
    assert("tack"@.len() == 4);
    assert("ice"@.len() == 3);
    assert("glue"@.len() == 4);
    assert("sniper"@.len() == 6);
    assert("sub"@.len() == 3);
    assert("buccaneer"@.len() == 9);
    assert("ace"@.len() == 3);
    assert("heli"@.len() == 4);
    assert("mortar"@.len() == 6);
    assert("gunner"@.len() == 6);
    assert("wizard"@.len() == 6);
    assert("super"@.len() == 5);
    assert("ninja"@.len() == 5);
    assert("alchemist"@.len() == 9);
    assert("druid"@.len() == 5);
    assert("farm"@.len() == 4);
    assert("engineer"@.len() == 8);
    assert("factory"@.len() == 7);
    assert("village"@.len() == 7);
    assert("hero"@[0] != "dart"@[0]);
    assert("hero"@[0] != "bomb"@[0]);
    assert("hero"@[0] != "tack"@[0]);
    assert("hero"@[0] != "glue"@[0]);
    assert("hero"@[2] != "heli"@[2]);
    assert("hero"@[0] != "farm"@[0]);
    assert("dart"@[0] != "bomb"@[0]);
    assert("dart"@[0] != "tack"@[0]);
    assert("dart"@[0] != "glue"@[0]);
    assert("dart"@[0] != "heli"@[0]);
    assert("dart"@[0] != "farm"@[0]);
    assert("boomerang"@[1] != "buccaneer"@[1]);
    assert("boomerang"@[0] != "alchemist"@[0]);
    assert("bomb"@[0] != "tack"@[0]);
    assert("bomb"@[0] != "glue"@[0]);
    assert("bomb"@[0] != "heli"@[0]);
    assert("bomb"@[0] != "farm"@[0]);
    assert("tack"@[0] != "glue"@[0]);
    assert("tack"@[0] != "heli"@[0]);
    assert("tack"@[0] != "farm"@[0]);
    assert("ice"@[0] != "sub"@[0]);
    assert("ice"@[0] != "ace"@[0]);
    assert("glue"@[0] != "heli"@[0]);
    assert("glue"@[0] != "farm"@[0]);
    assert("sniper"@[0] != "mortar"@[0]);
    assert("sniper"@[0] != "gunner"@[0]);
    assert("sniper"@[0] != "wizard"@[0]);
    assert("sub"@[0] != "ace"@[0]);
    assert("buccaneer"@[0] != "alchemist"@[0]);
    assert("heli"@[0] != "farm"@[0]);
    assert("mortar"@[0] != "gunner"@[0]);
    assert("mortar"@[0] != "wizard"@[0]);
    assert("gunner"@[0] != "wizard"@[0]);
    assert("super"@[0] != "ninja"@[0]);
    assert("super"@[0] != "druid"@[0]);
    assert("ninja"@[0] != "druid"@[0]);
    assert("factory"@[0] != "village"@[0]);
    let table = tower_hotkey_table();
    assert(tower_key(table[0].0) == Some(table[0].1));
    assert(tower_key(table[1].0) == Some(table[1].1));
    assert(tower_key(table[2].0) == Some(table[2].1));
    assert(tower_key(table[3].0) == Some(table[3].1));
    assert(tower_key(table[4].0) == Some(table[4].1));
    assert(tower_key(table[5].0) == Some(table[5].1));
    assert(tower_key(table[6].0) == Some(table[6].1));
    assert(tower_key(table[7].0) == Some(table[7].1));
    assert(tower_key(table[8].0) == Some(table[8].1));
    assert(tower_key(table[9].0) == Some(table[9].1));
    assert(tower_key(table[10].0) == Some(table[10].1));
    assert(tower_key(table[11].0) == Some(table[11].1));
    assert(tower_key(table[12].0) == Some(table[12].1));
    assert(tower_key(table[13].0) == Some(table[13].1));
    assert(tower_key(table[14].0) == Some(table[14].1));
    assert(tower_key(table[15].0) == Some(table[15].1));
    assert(tower_key(table[16].0) == Some(table[16].1));
    assert(tower_key(table[17].0) == Some(table[17].1));
    assert(tower_key(table[18].0) == Some(table[18].1));
    assert(tower_key(table[19].0) == Some(table[19].1));
    assert(tower_key(table[20].0) == Some(table[20].1));
    assert(tower_key(table[21].0) == Some(table[21].1));
    assert(tower_key(table[22].0) == Some(table[22].1));
    assert forall|i: int| 0 <= i < table.len() implies activation(
        command_text("tower"@, #[trigger] table[i].0),
        VotingPhase::Regular,
    ) == Some((GameAction::Press(table[i].1), VotingPhase::Placement)) by {
        assert(0 <= i < 23);
        assert(i == 0 || i == 1 || i == 2 || i == 3 || i == 4 || i == 5 || i == 6 || i == 7 || i
            == 8 || i == 9 || i == 10 || i == 11 || i == 12 || i == 13 || i == 14 || i == 15 || i
            == 16 || i == 17 || i == 18 || i == 19 || i == 20 || i == 21 || i == 22);
        assert(forall|j: int| 0 <= j < table[i].0.len() ==> table[i].0[j] != ' ');
        tower_vote_activation(table[i].0);
        assert(tower_key(table[i].0) == Some(table[i].1));
    }
}

/// Law: different towers have different hotkeys.
pub proof fn tower_hotkeys_are_distinct(a: Seq<char>, b: Seq<char>)
    requires
        tower_key(a) is Some,
        tower_key(a) == tower_key(b),
    ensures
        a == b,
{
}

proof fn lemma_command_literals()
    ensures
        "ability"@ != "tower"@,
        "ability"@ != "upgrade"@,
        "ability"@ != "select"@,
        "ability"@ != "start"@,
        "ability"@ != "speed"@,
        "ability"@ != "sell"@,
        "ability"@ != "targeting"@,
        "upgrade"@ != "tower"@,
{
    reveal_strlit("tower");
    reveal_strlit("upgrade");
    reveal_strlit("ability");
    reveal_strlit("select");
    reveal_strlit("start");
    reveal_strlit("speed");
    reveal_strlit("sell");
    reveal_strlit("targeting");
    assert("ability"@[0] != "upgrade"@[0]);
}

proof fn lemma_digit_literals(d: char)
    ensures
        (seq![d] == "1"@) == (d == '1'),
        (seq![d] == "2"@) == (d == '2'),
        (seq![d] == "3"@) == (d == '3'),
        (seq![d] == "4"@) == (d == '4'),
        (seq![d] == "5"@) == (d == '5'),
        (seq![d] == "6"@) == (d == '6'),
        (seq![d] == "7"@) == (d == '7'),
        (seq![d] == "8"@) == (d == '8'),
        (seq![d] == "9"@) == (d == '9'),
{
    reveal_strlit("1");
    reveal_strlit("2");
    reveal_strlit("3");
    reveal_strlit("4");
    reveal_strlit("5");
    reveal_strlit("6");
    reveal_strlit("7");
    reveal_strlit("8");
    reveal_strlit("9");
    assert(seq![d][0] == d);
    if d == '1' {
        assert(seq![d] =~= "1"@);
    } else {
        assert(seq![d][0] != "1"@[0]);
    }
    if d == '2' {
        assert(seq![d] =~= "2"@);
    } else {
        assert(seq![d][0] != "2"@[0]);
    }
    if d == '3' {
        assert(seq![d] =~= "3"@);
    } else {
        assert(seq![d][0] != "3"@[0]);
    }
    if d == '4' {
        assert(seq![d] =~= "4"@);
    } else {
        assert(seq![d][0] != "4"@[0]);
    }
    if d == '5' {
        assert(seq![d] =~= "5"@);
    } else {
        assert(seq![d][0] != "5"@[0]);
    }
    if d == '6' {
        assert(seq![d] =~= "6"@);
    } else {
        assert(seq![d][0] != "6"@[0]);
    }
    if d == '7' {
        assert(seq![d] =~= "7"@);
    } else {
        assert(seq![d][0] != "7"@[0]);
    }
    if d == '8' {
        assert(seq![d] =~= "8"@);
    } else {
        assert(seq![d][0] != "8"@[0]);
    }
    if d == '9' {
        assert(seq![d] =~= "9"@);
    } else {
        assert(seq![d][0] != "9"@[0]);
    }
}

/// Law: an `ability <d>` vote in the regular phase, for a digit `d` from 1
/// to 9, presses the number key of that digit (so different digits press
/// different keys), and the phase stays regular.
pub proof fn ability_vote_presses_its_number(d: char)
    requires
        '1' <= d <= '9',
    ensures
        activation(command_text("ability"@, seq![d]), VotingPhase::Regular) matches Some(
            (GameAction::Press(k), VotingPhase::Regular),
        ) && number_key_value(k) == Some(digit_value(d)),
{
    lemma_literals_have_no_space();
    assert(seq![d][0] == d);
    lemma_command_and_word("ability"@, seq![d]);
    lemma_command_literals();
    lemma_digit_literals(d);
    assert(d == '1' || d == '2' || d == '3' || d == '4' || d == '5' || d == '6' || d == '7'
        || d == '8' || d == '9');
}

/// Law: an `upgrade <word>` vote in the regular phase (a word without
/// spaces) keeps the phase regular; it presses the key of upgrade path `d`
/// when the word is a single digit `d` from 1 to 3, and nothing otherwise.
pub proof fn upgrade_vote_presses_its_path(w: Seq<char>)
    requires
        forall|i: int| 0 <= i < w.len() ==> w[i] != ' ',
    ensures
        activation(command_text("upgrade"@, w), VotingPhase::Regular) matches Some((a, p))
            && p == VotingPhase::Regular && if w.len() == 1 && '1' <= w[0] <= '3' {
            a matches GameAction::Press(k) && upgrade_path_of_key(k) == Some(digit_value(w[0]))
        } else {
            a == GameAction::Idle
        },
{
    lemma_literals_have_no_space();
    lemma_command_and_word("upgrade"@, w);
    lemma_command_literals();
    reveal_strlit("1");
    reveal_strlit("2");
    reveal_strlit("3");
    if w.len() == 1 {
        assert(w =~= seq![w[0]]);
        lemma_digit_literals(w[0]);
    }
}

/// Law: in the regular phase `start` and `speed` press space, `sell` presses
/// backspace and `targeting` presses tab, whatever word follows them; the
/// phase stays regular.
pub proof fn single_key_commands(w: Seq<char>)
    requires
        forall|i: int| 0 <= i < w.len() ==> w[i] != ' ',
    ensures
        activation(command_text("start"@, w), VotingPhase::Regular) == Some(
            (GameAction::Press(Key::Space), VotingPhase::Regular),
        ),
        activation(command_text("speed"@, w), VotingPhase::Regular) == Some(
            (GameAction::Press(Key::Space), VotingPhase::Regular),
        ),
        activation(command_text("sell"@, w), VotingPhase::Regular) == Some(
            (GameAction::Press(Key::BackSpace), VotingPhase::Regular),
        ),
        activation(command_text("targeting"@, w), VotingPhase::Regular) == Some(
            (GameAction::Press(Key::Tab), VotingPhase::Regular),
        ),
{
    reveal_strlit("tower");
    reveal_strlit("upgrade");
    reveal_strlit("select");
    reveal_strlit("start");
    reveal_strlit("speed");
    reveal_strlit("sell");
    reveal_strlit("targeting");
    assert(forall|i: int| 0 <= i < "start"@.len() ==> "start"@[i] != ' ');
    assert(forall|i: int| 0 <= i < "speed"@.len() ==> "speed"@[i] != ' ');
    assert(forall|i: int| 0 <= i < "sell"@.len() ==> "sell"@[i] != ' ');
    assert(forall|i: int| 0 <= i < "targeting"@.len() ==> "targeting"@[i] != ' ');
    lemma_command_and_word("start"@, w);
    lemma_command_and_word("speed"@, w);
    lemma_command_and_word("sell"@, w);
    lemma_command_and_word("targeting"@, w);
    assert("start"@[0] != "tower"@[0]);
    assert("speed"@[0] != "tower"@[0]);
    assert("speed"@[1] != "start"@[1]);
}

/// Law: in the regular phase a `select <tile>` vote clicks the screen point
/// of that tile and keeps the phase regular.
pub proof fn select_vote_clicks_the_tile(w: Seq<char>)
    requires
        forall|i: int| 0 <= i < w.len() ==> w[i] != ' ',
        location_point(w) is Some,
    ensures
        location_point(w) matches Some(p) && activation(command_text("select"@, w), VotingPhase::Regular)
            == Some(
            (GameAction::SelectTower { x: p.0 as i32, y: p.1 as i32 }, VotingPhase::Regular),
        ),
{
    reveal_strlit("tower");
    reveal_strlit("upgrade");
    reveal_strlit("select");
    assert(forall|i: int| 0 <= i < "select"@.len() ==> "select"@[i] != ' ');
    lemma_command_and_word("select"@, w);
}

} // verus!
