use i3status_rs::blocks::BlockHandlers;
use i3status_rs::dispatcher::{ClickAction, Construction, Dispatcher, MouseButton, SignalAction, SlotState};
use i3status_rs::signals::Signal;

fn handlers(signal: Option<i32>, on_click: Option<&str>) -> BlockHandlers {
    BlockHandlers {
        signal,
        on_click: on_click.map(|c| c.to_string()),
    }
}

fn frag(s: &str) -> Vec<String> {
    vec![s.to_string()]
}

/// Builds `n` blocks (instance `i` is the number `i`) and completes their
/// first update at `now` with the given interval.
fn running(n: usize, interval: Option<u64>, now: u64) -> Dispatcher<u32> {
    let mut d = Dispatcher::new(n);
    for id in 0..n {
        let b = d
            .on_constructed(id, Construction::Built(id as u32, handlers(None, None), frag("new")))
            .unwrap();
        d.on_update_done(id, b, interval, frag("up"), now);
    }
    d
}

#[test]
fn construction_starts_first_update() {
    let mut d: Dispatcher<u32> = Dispatcher::new(2);
    assert_eq!(d.state(0), SlotState::Constructing);
    let r = d.on_constructed(0, Construction::Built(7, handlers(None, None), frag("a")));
    assert_eq!(r, Some(7));
    assert_eq!(d.state(0), SlotState::InFlight);
    assert_eq!(d.rendered()[0], frag("a"));
    assert!(d.rendered()[1].is_empty());
    assert_eq!(d.time_to_next_wake(0), None);
}

#[test]
fn skipped_block_is_disabled() {
    let mut d: Dispatcher<u32> = Dispatcher::new(1);
    assert_eq!(d.on_constructed(0, Construction::Skipped), None);
    assert_eq!(d.state(0), SlotState::Disabled);
    assert_eq!(d.on_request(0), None);
}

#[test]
fn update_completion_reschedules_from_completion_time() {
    // Block A, interval 10 s, owned at 0; a request at 3 s; done at 3.2 s.
    let mut d = running(1, Some(10_000), 0);
    assert_eq!(d.state(0), SlotState::Owned);
    let b = d.on_request(0).unwrap();
    assert_eq!(d.state(0), SlotState::InFlight);
    d.on_update_done(0, b, Some(10_000), frag("A"), 3_200);
    assert_eq!(d.state(0), SlotState::Owned);
    assert_eq!(d.time_to_next_wake(3_200), Some(10_000));
    assert_eq!(d.time_to_next_wake(13_200), Some(0));
    assert!(d.on_timer(13_199).is_empty());
    let started = d.on_timer(13_200);
    assert_eq!(started, vec![(0, 0)]);
}

#[test]
fn timer_respects_interval_after_completion() {
    let mut d = running(1, Some(5_000), 1_000);
    assert!(d.on_timer(5_999).is_empty());
    assert_eq!(d.state(0), SlotState::Owned);
    assert_eq!(d.time_to_next_wake(5_999), Some(1));
    let started = d.on_timer(6_000);
    assert_eq!(started.len(), 1);
    assert_eq!(d.state(0), SlotState::InFlight);
    assert_eq!(d.time_to_next_wake(6_000), None);
}

#[test]
fn requests_coalesce_while_in_flight() {
    let mut d = running(1, None, 0);
    let b = d.on_request(0).unwrap();
    for _ in 0..5 {
        assert_eq!(d.on_request(0), None);
        assert_eq!(d.state(0), SlotState::InFlight);
    }
    d.on_update_done(0, b, None, frag("done"), 100);
    assert_eq!(d.state(0), SlotState::Owned);
    assert_eq!(d.rendered()[0], frag("done"));
    assert_eq!(d.on_request(0), Some(0));
}

#[test]
fn block_without_interval_is_never_scheduled() {
    let d = running(2, None, 0);
    assert_eq!(d.time_to_next_wake(0), None);
}

#[test]
fn request_for_unknown_block_is_dropped() {
    let mut d = running(1, None, 0);
    assert_eq!(d.on_request(5), None);
    assert_eq!(d.state(0), SlotState::Owned);
}

#[test]
fn refresh_all_signal_skips_in_flight_blocks() {
    let mut d = running(3, None, 0);
    let _b1 = d.on_request(1).unwrap();
    match d.on_signal(Signal::Usr1) {
        SignalAction::Update(started) => assert_eq!(started, vec![(0, 0), (2, 2)]),
        SignalAction::Restart => panic!("refresh-all must not restart"),
    }
    assert_eq!(d.state(0), SlotState::InFlight);
    assert_eq!(d.state(1), SlotState::InFlight);
    assert_eq!(d.state(2), SlotState::InFlight);
}

#[test]
fn numbered_signal_selects_matching_filter() {
    let mut d: Dispatcher<u32> = Dispatcher::new(3);
    let filters = [Some(2), Some(3), None];
    for id in 0..3 {
        let b = d
            .on_constructed(id, Construction::Built(id as u32, handlers(filters[id], None), frag("x")))
            .unwrap();
        d.on_update_done(id, b, None, frag("x"), 0);
    }
    match d.on_signal(Signal::Other(2)) {
        SignalAction::Update(started) => assert_eq!(started, vec![(0, 0)]),
        SignalAction::Restart => panic!("a numbered signal must not restart"),
    }
    assert_eq!(d.state(1), SlotState::Owned);
    assert_eq!(d.state(2), SlotState::Owned);
}

#[test]
fn reload_signal_restarts() {
    let mut d = running(1, None, 0);
    assert!(matches!(d.on_signal(Signal::Usr2), SignalAction::Restart));
    assert_eq!(d.state(0), SlotState::Owned);
}

#[test]
fn left_click_with_command_spawns_it() {
    let mut d: Dispatcher<u32> = Dispatcher::new(1);
    let b = d
        .on_constructed(0, Construction::Built(0, handlers(None, Some("pavucontrol")), frag("x")))
        .unwrap();
    d.on_update_done(0, b, None, frag("x"), 0);
    match d.on_click(0, MouseButton::Left) {
        ClickAction::Spawn(cmd) => assert_eq!(cmd, "pavucontrol"),
        _ => panic!("expected the click command"),
    }
    assert_eq!(d.state(0), SlotState::Owned);
    match d.on_click(0, MouseButton::Right) {
        ClickAction::Click(b) => assert_eq!(b, 0),
        _ => panic!("expected the block's own handler"),
    }
    assert_eq!(d.state(0), SlotState::InFlight);
}

#[test]
fn click_done_returns_block_or_updates() {
    let mut d = running(1, None, 0);
    let b = match d.on_click(0, MouseButton::Left) {
        ClickAction::Click(b) => b,
        _ => panic!("expected the block's own handler"),
    };
    assert_eq!(d.on_click_done(0, b, true), Some(0));
    assert_eq!(d.state(0), SlotState::InFlight);
    d.on_update_done(0, 0, None, frag("y"), 10);
    let b = match d.on_click(0, MouseButton::Middle) {
        ClickAction::Click(b) => b,
        _ => panic!("expected the block's own handler"),
    };
    assert_eq!(d.on_click_done(0, b, false), None);
    assert_eq!(d.state(0), SlotState::Owned);
}

#[test]
fn click_on_in_flight_block_is_ignored() {
    let mut d = running(1, None, 0);
    let _b = d.on_request(0).unwrap();
    assert!(matches!(d.on_click(0, MouseButton::Right), ClickAction::Ignore));
}

#[test]
fn failed_block_is_never_dispatched() {
    let mut d: Dispatcher<u32> = Dispatcher::new(2);
    assert_eq!(d.on_constructed(0, Construction::Failed(frag("Error: bad config"))), None);
    let b = d.on_constructed(1, Construction::Built(1, handlers(Some(1), None), frag("b"))).unwrap();
    d.on_update_done(1, b, Some(1_000), frag("b"), 0);
    assert_eq!(d.state(0), SlotState::Failed);
    assert_eq!(d.rendered()[0], frag("Error: bad config"));
    assert_eq!(d.on_request(0), None);
    assert!(matches!(d.on_click(0, MouseButton::Left), ClickAction::Ignore));
    match d.on_signal(Signal::Usr1) {
        SignalAction::Update(started) => assert_eq!(started, vec![(1, 1)]),
        SignalAction::Restart => panic!("refresh-all must not restart"),
    }
    assert_eq!(d.state(0), SlotState::Failed);
    d.on_update_done(1, 1, Some(1_000), frag("b2"), 100);
    assert_eq!(d.on_timer(1_100), vec![(1, 1)]);
    assert_eq!(d.rendered()[1], frag("b2"));
}

#[test]
fn second_construction_result_is_ignored() {
    let mut d: Dispatcher<u32> = Dispatcher::new(1);
    d.on_constructed(0, Construction::Failed(frag("e")));
    assert_eq!(d.on_constructed(0, Construction::Built(3, handlers(None, None), frag("z"))), None);
    assert_eq!(d.state(0), SlotState::Failed);
    assert_eq!(d.block_count(), 1);
}
