//! Heartbeats of tool calls in progress.
use thclaws_hud::active_tools::{
    next_heartbeat_delay, next_heartbeat_delay_at, oldest_due_heartbeat, oldest_due_heartbeat_at,
    ActiveToolDisplay, ActiveTools, HEARTBEAT_EVERY_SECS, HEARTBEAT_FIRST_AFTER_SECS,
};
use thclaws_hud::time::{Clock, Duration, Instant};

fn at(secs: u64) -> Instant {
    Instant::at(Duration::from_secs(secs))
}

fn call(label: &str, started: u64, last: u64) -> ActiveToolDisplay {
    let mut td = ActiveToolDisplay::new_at(label.to_string(), at(started));
    td.last_heartbeat_at = at(last);
    td
}

#[test]
fn active_tool_heartbeat_not_due_immediately() {
    let mut clock = Clock::start();
    let td = ActiveToolDisplay::new("test".to_string(), &mut clock);
    assert!(!td.heartbeat_due(&mut clock));
    assert_eq!(td.label, "test");
}

/// A clock that has run for a thousand seconds.
fn old_clock() -> Clock {
    let mut clock = Clock::start();
    clock.note(at(1000).nanos);
    clock
}

#[test]
fn active_tool_first_heartbeat_due_after_first_interval() {
    let mut clock = old_clock();
    let mut td = ActiveToolDisplay::new("test".to_string(), &mut clock);
    let start = at(1000 - HEARTBEAT_FIRST_AFTER_SECS);
    td.started_at = start;
    td.last_heartbeat_at = start;
    assert!(td.heartbeat_due(&mut clock));
    assert!(td.heartbeat_due_at(at(1000)));
    assert_eq!(td.elapsed(&mut clock), Duration::from_secs(10));
    assert_eq!(td.elapsed_at(at(1000)), Duration::from_secs(10));
}

#[test]
fn active_tool_second_heartbeat_waits_for_repeat_interval() {
    let mut clock = old_clock();
    let mut td = ActiveToolDisplay::new("test".to_string(), &mut clock);
    td.started_at = at(1000 - HEARTBEAT_FIRST_AFTER_SECS - 1);
    td.last_heartbeat_at = clock.now();
    assert!(!td.heartbeat_due(&mut clock));
    assert!(!td.heartbeat_due_at(at(1000)));
    td.last_heartbeat_at = at(1000 - HEARTBEAT_EVERY_SECS);
    assert!(td.heartbeat_due(&mut clock));
    assert!(td.heartbeat_due_at(at(1000)));
}

#[test]
fn next_heartbeat_delay_handles_empty_and_due() {
    let mut clock = old_clock();
    let empty = ActiveTools::new();
    assert_eq!(
        next_heartbeat_delay(&empty, &mut clock),
        Duration::from_secs(HEARTBEAT_EVERY_SECS)
    );

    let mut active = ActiveTools::new();
    let mut td = ActiveToolDisplay::new("test".to_string(), &mut clock);
    let start = at(1000 - HEARTBEAT_FIRST_AFTER_SECS);
    td.started_at = start;
    td.last_heartbeat_at = start;
    active.insert("1".to_string(), td);
    assert_eq!(next_heartbeat_delay(&active, &mut clock), Duration::from_secs(0));
    assert_eq!(next_heartbeat_delay_at(&active, at(1000)), Duration::from_secs(0));
}

#[test]
fn the_answers_follow_the_clock_as_it_goes_on() {
    let mut clock = old_clock();
    let mut active = ActiveTools::new();
    let mut td = ActiveToolDisplay::new("x".to_string(), &mut clock);
    assert!(!td.heartbeat_due(&mut clock));
    active.insert("x".to_string(), td.clone());
    assert_eq!(next_heartbeat_delay(&active, &mut clock), Duration::from_secs(10));
    clock.note(at(1009).nanos);
    assert!(!td.heartbeat_due(&mut clock));
    assert!(oldest_due_heartbeat(&active, &mut clock).is_none());
    assert_eq!(next_heartbeat_delay(&active, &mut clock), Duration::from_secs(1));
    clock.note(at(1010).nanos);
    assert!(td.heartbeat_due(&mut clock));
    assert_eq!(oldest_due_heartbeat(&active, &mut clock).unwrap().0, "x");
    assert_eq!(next_heartbeat_delay(&active, &mut clock), Duration::from_secs(0));
    td.last_heartbeat_at = clock.now();
    active.insert("x".to_string(), td.clone());
    assert_eq!(next_heartbeat_delay(&active, &mut clock), Duration::from_secs(30));
    clock.note(at(1040).nanos);
    assert!(td.heartbeat_due(&mut clock));
    assert_eq!(td.elapsed(&mut clock), Duration::from_secs(40));
}

#[test]
fn first_heartbeat_is_due_exactly_at_the_interval() {
    let td = call("x", 100, 100);
    let last_before = Instant::at(Duration::from_nanos(at(110).nanos - 1));
    assert!(!td.heartbeat_due_at(last_before));
    assert!(td.heartbeat_due_at(at(110)));
    assert!(!td.heartbeat_due_at(at(50)));
    let beaten = call("x", 100, 110);
    assert!(!beaten.heartbeat_due_at(at(139)));
    assert!(beaten.heartbeat_due_at(at(140)));
}

#[test]
fn next_delay_is_the_least_and_ends_with_a_heartbeat() {
    let mut active = ActiveTools::new();
    active.insert("new".to_string(), call("new", 97, 97));
    active.insert("old".to_string(), call("old", 10, 85));
    assert_eq!(next_heartbeat_delay_at(&active, at(100)), Duration::from_secs(7));
    assert!(oldest_due_heartbeat_at(&active, at(106)).is_none());
    let (id, td) = oldest_due_heartbeat_at(&active, at(107)).unwrap();
    assert_eq!((id.as_str(), td.label.as_str()), ("new", "new"));
    active.remove("new");
    assert_eq!(next_heartbeat_delay_at(&active, at(100)), Duration::from_secs(15));
    assert_eq!(next_heartbeat_delay_at(&active, at(115)), Duration::from_secs(0));
    assert_eq!(next_heartbeat_delay_at(&active, at(500)), Duration::from_secs(0));
}

#[test]
fn oldest_of_the_due_calls_is_picked() {
    let mut active = ActiveTools::new();
    assert!(oldest_due_heartbeat_at(&active, at(1000)).is_none());
    active.insert("a".to_string(), call("a", 50, 50));
    active.insert("b".to_string(), call("b", 20, 20));
    active.insert("c".to_string(), call("c", 10, 95));
    let (id, _) = oldest_due_heartbeat_at(&active, at(100)).unwrap();
    assert_eq!(id, "b");
    let (id, _) = oldest_due_heartbeat_at(&active, at(125)).unwrap();
    assert_eq!(id, "c");
    assert!(oldest_due_heartbeat_at(&active, at(15)).is_none());
}

#[test]
fn the_clock_gives_the_time_to_each_question() {
    let mut clock = Clock::start();
    let mut active = ActiveTools::new();
    let first = clock.now();
    let td = ActiveToolDisplay::new("x".to_string(), &mut clock);
    assert!(td.started_at >= first);
    assert_eq!(td.started_at, td.last_heartbeat_at);
    let e1 = td.elapsed(&mut clock);
    let e2 = td.elapsed(&mut clock);
    assert!(e1 <= e2);
    assert!(e2 < Duration::from_secs(10));
    active.insert("x".to_string(), td);
    assert!(oldest_due_heartbeat(&active, &mut clock).is_none());
    let delay = next_heartbeat_delay(&active, &mut clock);
    assert!(delay > Duration::from_secs(0));
    assert!(delay <= Duration::from_secs(HEARTBEAT_FIRST_AFTER_SECS));
    let mut last = clock.now();
    while last.nanos < Duration::from_millis(2).nanos {
        let next = clock.now();
        assert!(next >= last);
        last = next;
    }
}

#[test]
fn calls_are_kept_by_id() {
    let mut active = ActiveTools::new();
    assert!(active.get("1").is_none());
    active.insert("1".to_string(), call("one", 1, 1));
    active.insert("2".to_string(), call("two", 2, 2));
    active.insert("1".to_string(), call("uno", 3, 3));
    assert_eq!(active.get("1").unwrap().label, "uno");
    assert_eq!(active.get("2").unwrap().label, "two");
    assert_eq!(active.remove("1").unwrap().label, "uno");
    assert!(active.remove("1").is_none());
    assert!(active.get("1").is_none());
    assert_eq!(active.get("2").unwrap().label, "two");
}

#[test]
fn a_reading_never_goes_back() {
    let mut clock = Clock::start();
    let t = 1_000_000 * 1_000_000_000u128;
    assert_eq!(clock.note(t), Instant { nanos: t });
    assert_eq!(clock.note(t - 1), Instant { nanos: t });
    assert_eq!(clock.now(), Instant { nanos: t });
    assert_eq!(clock.note(t + 1), Instant { nanos: t + 1 });
}
