use twitch_plays_btd::round_timer::tick_countdown;

#[test]
fn ticks_count_down() {
    assert_eq!(tick_countdown(3, 3), (2, false));
    assert_eq!(tick_countdown(2, 3), (1, false));
    assert_eq!(tick_countdown(1, 3), (3, true));
}

#[test]
fn rounds_close_every_timer_seconds() {
    let timer = 10;
    let mut countdown = timer;
    let mut closed_at = Vec::new();
    for second in 1..=35 {
        let (next, closes) = tick_countdown(countdown, timer);
        if closes {
            closed_at.push(second);
        }
        countdown = next;
    }
    assert_eq!(closed_at, vec![10, 20, 30]);
}

#[test]
fn a_one_second_timer_closes_every_tick() {
    assert_eq!(tick_countdown(1, 1), (1, true));
}
