use twitch_plays_btd::actions::{GameAction, Key};
use twitch_plays_btd::ballot::{add_vote, checked_collect_votes, collect_votes, Votes};
use twitch_plays_btd::voting::VotingPhase;

fn vote(votes: &mut Votes, user: &str, text: &str) {
    add_vote(votes, user.to_string(), text.to_string());
}

#[test]
fn no_votes_nothing_happens() {
    let mut votes = Votes::new();
    let mut phase = VotingPhase::Regular;
    assert!(collect_votes(&mut votes, &mut phase).is_none());
    assert_eq!(phase, VotingPhase::Regular);
}

#[test]
fn tower_vote_starts_placement() {
    let mut votes = Votes::new();
    let mut phase = VotingPhase::Regular;
    vote(&mut votes, "1", "Tower Bomb");
    let election = collect_votes(&mut votes, &mut phase).unwrap();
    assert_eq!(election.winner, "tower bomb");
    assert_eq!(election.votes, 1);
    assert_eq!(election.action, GameAction::Press(Key::E));
    assert_eq!(phase, VotingPhase::Placement);
    // The votes are gone after the round.
    assert!(collect_votes(&mut votes, &mut phase).is_none());
    assert_eq!(phase, VotingPhase::Placement);
}

#[test]
fn a_later_vote_replaces_an_earlier_one() {
    let mut votes = Votes::new();
    let mut phase = VotingPhase::Regular;
    vote(&mut votes, "1", "start");
    vote(&mut votes, "2", "start");
    vote(&mut votes, "1", "sell");
    vote(&mut votes, "2", "sell");
    let election = collect_votes(&mut votes, &mut phase).unwrap();
    assert_eq!(election.winner, "sell");
    assert_eq!(election.votes, 2);
    assert_eq!(election.action, GameAction::Press(Key::BackSpace));
}

#[test]
fn the_most_voted_text_wins() {
    let mut votes = Votes::new();
    let mut phase = VotingPhase::Regular;
    vote(&mut votes, "1", "start");
    vote(&mut votes, "2", "targeting");
    vote(&mut votes, "3", "TARGETING");
    vote(&mut votes, "4", "upgrade 2");
    let election = collect_votes(&mut votes, &mut phase).unwrap();
    assert_eq!(election.winner, "targeting");
    assert_eq!(election.votes, 2);
    assert_eq!(election.action, GameAction::Press(Key::Tab));
    assert_eq!(phase, VotingPhase::Regular);
}

#[test]
fn a_tie_goes_to_one_of_the_leaders() {
    let mut votes = Votes::new();
    let mut phase = VotingPhase::Regular;
    vote(&mut votes, "1", "start");
    vote(&mut votes, "2", "sell");
    let election = collect_votes(&mut votes, &mut phase).unwrap();
    assert_eq!(election.votes, 1);
    assert!(election.winner == "start" || election.winner == "sell");
}

#[test]
fn placement_vote_places_the_tower() {
    let mut votes = Votes::new();
    let mut phase = VotingPhase::Placement;
    vote(&mut votes, "1", "b5");
    let election = collect_votes(&mut votes, &mut phase).unwrap();
    assert_eq!(election.action, GameAction::PlaceTower { x: 212, y: 72 });
    assert_eq!(phase, VotingPhase::Regular);
}

#[test]
fn placement_vote_that_is_no_tile_does_nothing() {
    let mut votes = Votes::new();
    let mut phase = VotingPhase::Placement;
    vote(&mut votes, "1", "sell");
    let election = collect_votes(&mut votes, &mut phase).unwrap();
    assert_eq!(election.action, GameAction::Idle);
    assert_eq!(phase, VotingPhase::Placement);
}

#[test]
fn select_upgrade_and_ability_votes() {
    let cases = [
        ("select a1", GameAction::SelectTower { x: 58, y: 36 }),
        ("upgrade 1", GameAction::Press(Key::Comma)),
        ("upgrade 2", GameAction::Press(Key::Period)),
        ("upgrade 3", GameAction::Press(Key::Slash)),
        ("upgrade 7", GameAction::Idle),
        ("ability 9", GameAction::Press(Key::Number9)),
        ("ability 10", GameAction::Idle),
        ("speed", GameAction::Press(Key::Space)),
        ("start now", GameAction::Press(Key::Space)),
        ("tower wizard", GameAction::Press(Key::A)),
        ("hello", GameAction::Idle),
    ];
    for (text, action) in cases {
        let mut votes = Votes::new();
        let mut phase = VotingPhase::Regular;
        vote(&mut votes, "1", text);
        let election = collect_votes(&mut votes, &mut phase).unwrap();
        assert_eq!(election.action, action, "vote {}", text);
    }
}

#[test]
fn unknown_tower_still_starts_placement() {
    let mut votes = Votes::new();
    let mut phase = VotingPhase::Regular;
    vote(&mut votes, "1", "tower banana");
    let election = collect_votes(&mut votes, &mut phase).unwrap();
    assert_eq!(election.action, GameAction::Idle);
    assert_eq!(phase, VotingPhase::Placement);
}

#[test]
fn a_winner_that_cannot_be_acted_on_is_reported() {
    let mut votes = Votes::new();
    let mut phase = VotingPhase::Regular;
    vote(&mut votes, "1", "tower");
    assert!(checked_collect_votes(&mut votes, &mut phase).is_none());
    assert_eq!(phase, VotingPhase::Regular);
    // The votes are kept; a new, larger majority can still close the round.
    vote(&mut votes, "2", "sell");
    vote(&mut votes, "3", "sell");
    let election = checked_collect_votes(&mut votes, &mut phase).unwrap().unwrap();
    assert_eq!(election.winner, "sell");
    assert_eq!(election.votes, 2);
}

#[test]
fn tallies_list_each_text_once_with_its_count() {
    let mut votes = Votes::new();
    vote(&mut votes, "1", "start");
    vote(&mut votes, "2", "Sell");
    vote(&mut votes, "3", "sell");
    vote(&mut votes, "4", "start");
    vote(&mut votes, "5", "sell");
    vote(&mut votes, "4", "targeting");
    let mut counts = votes.tallies();
    counts.sort();
    assert_eq!(
        counts,
        vec![("sell".to_string(), 3), ("start".to_string(), 1), ("targeting".to_string(), 1)]
    );
}

#[test]
fn no_votes_no_tallies() {
    assert!(Votes::new().tallies().is_empty());
}
