use backend_shell::launch::{
    decimal_string, environment, navigation_script, server_url, should_navigate, TimeoutPolicy,
    SERVER_PORT,
};
use backend_shell::lang::{detect_languages, lang_result, Detected, EnglishGermanDetector, LangResult};
use backend_shell::prober::{ProbeStep, Prober};
use backend_shell::relay::{deliver, tag, Relay, Stream};
use backend_shell::supervisor::{Slot, Supervisor, SupervisorError};
use backend_shell::termination::{
    forceful_command, graceful_command, Action, Command, Phase, Platform, Termination,
    MAX_POLLS, POLL_INTERVAL_MS,
};

/// Runs a readiness wait against a port whose attempts succeed per `probe`;
/// returns whether it was ready and the milliseconds slept.
fn run_wait(attempts: u32, delay_ms: u64, probe: impl Fn(u32) -> bool) -> (bool, u64) {
    let mut p = Prober::new(attempts, delay_ms);
    let mut slept = 0u64;
    let mut attempt = 0u32;
    while p.should_connect() {
        match p.record(probe(attempt)) {
            ProbeStep::Ready => return (true, slept),
            ProbeStep::Sleep { ms } => slept += ms,
        }
        attempt += 1;
    }
    (false, slept)
}

#[test]
fn never_open_port_times_out_after_full_budget() {
    for (attempts, delay) in [(200u32, 50u64), (1, 10), (0, 50), (40, 50)] {
        let (ready, slept) = run_wait(attempts, delay, |_| false);
        assert!(!ready);
        assert_eq!(slept, attempts as u64 * delay);
    }
}

#[test]
fn port_opening_within_budget_is_ready_early() {
    let (ready, slept) = run_wait(200, 50, |a| a >= 3);
    assert!(ready);
    assert_eq!(slept, 150);
    assert!(slept < 200 * 50);
    let (ready, slept) = run_wait(5, 50, |a| a == 0);
    assert!(ready);
    assert_eq!(slept, 0);
}

#[test]
fn prober_record_steps() {
    let mut p = Prober::new(2, 25);
    assert!(p.should_connect());
    assert_eq!(p.record(false), ProbeStep::Sleep { ms: 25 });
    assert_eq!(p.made, 1);
    assert_eq!(p.record(true), ProbeStep::Ready);
    assert_eq!(p.made, 1);
    assert_eq!(p.record(false), ProbeStep::Sleep { ms: 25 });
    assert!(!p.should_connect());
}

#[test]
fn ready_line_relayed_before_port_opens() {
    // The child prints "ready" and opens its port after 300 ms; the wait has
    // a 2000 ms budget at 50 ms per attempt.
    let mut relay = Relay::new(Stream::Stdout, true);
    let mut emitted: Vec<String> = Vec::new();
    let mut p = Prober::new(40, 50);
    let mut slept = 0u64;
    let mut ready = false;
    let mut fed = false;
    while p.should_connect() {
        if !fed {
            for d in relay.feed(b"ready\n") {
                emitted.push(d.event.line.clone());
            }
            fed = true;
        }
        match p.record(slept >= 300) {
            ProbeStep::Ready => {
                ready = true;
                break;
            }
            ProbeStep::Sleep { ms } => slept += ms,
        }
    }
    assert!(ready);
    assert_eq!(slept, 300);
    assert!(slept < 2000);
    assert_eq!(emitted, vec!["ready".to_string()]);
}

#[test]
fn relay_splits_lines_in_order() {
    let mut r = Relay::new(Stream::Stdout, false);
    let ds = r.feed(b"L1\nL2\nL3\n");
    let lines: Vec<String> = ds.iter().map(|d| d.event.line.clone()).collect();
    assert_eq!(lines, vec!["L1", "L2", "L3"]);
    assert_eq!(ds[0].console, "[next stdout] L1");
    assert!(r.pending.is_empty());
}

#[test]
fn relay_keeps_order_across_chunks() {
    let mut whole = Relay::new(Stream::Stderr, true);
    let all: Vec<String> =
        whole.feed(b"alpha\nbeta\r\ngamma\n").iter().map(|d| d.console.clone()).collect();
    let mut pieces = Relay::new(Stream::Stderr, true);
    let mut got: Vec<String> = Vec::new();
    for chunk in [&b"al"[..], b"pha\nbe", b"ta\r", b"\ngam", b"ma\n"] {
        for d in pieces.feed(chunk) {
            got.push(d.console.clone());
        }
    }
    assert_eq!(got, all);
    assert_eq!(
        got,
        vec!["[next stderr] alpha", "[next stderr] beta", "[next stderr] gamma"]
    );
}

#[test]
fn relay_skips_undecodable_line() {
    let mut r = Relay::new(Stream::Stdout, true);
    let ds = r.feed(b"ok\n\xff\xfe\nstill \xc3\xa9\n");
    let lines: Vec<String> = ds.iter().map(|d| d.event.line.clone()).collect();
    assert_eq!(lines, vec!["ok".to_string(), "still \u{e9}".to_string()]);
}

#[test]
fn relay_finish_hands_out_last_partial_line() {
    let mut r = Relay::new(Stream::Stdout, true);
    assert!(r.feed(b"tail\r").is_empty());
    let d = r.finish().unwrap();
    assert_eq!(d.event.line, "tail\r");
    assert!(r.finish().is_none());
    let mut empty = Relay::new(Stream::Stdout, true);
    assert!(empty.finish().is_none());
}

#[test]
fn failing_file_sink_leaves_other_sinks_whole() {
    let mut with_file = Relay::new(Stream::Stdout, true);
    let mut without_file = Relay::new(Stream::Stdout, false);
    let a = with_file.feed(b"one\ntwo\n");
    let b = without_file.feed(b"one\ntwo\n");
    assert_eq!(a.len(), 2);
    assert_eq!(b.len(), 2);
    for (x, y) in a.iter().zip(b.iter()) {
        assert_eq!(x.console, y.console);
        assert_eq!(x.event.line, y.event.line);
        assert!(x.log_entry.is_some());
        assert!(y.log_entry.is_none());
    }
    assert_eq!(a[1].log_entry.as_deref(), Some("[stdout] two"));
}

#[test]
fn delivery_records() {
    let d = deliver(Stream::Stderr, &"boom".to_string(), true);
    assert_eq!(d.console, "[next stderr] boom");
    assert_eq!(d.event.stream, Stream::Stderr);
    assert_eq!(d.event.line, "boom");
    assert_eq!(d.log_entry.as_deref(), Some("[stderr] boom"));
    assert_eq!(tag(Stream::Stdout), "stdout");
}

fn run_termination(exits_at: Option<usize>) -> (Vec<Action>, u64, Termination) {
    let (mut t, first) = Termination::start();
    let mut actions = vec![first];
    let mut slept = 0u64;
    let mut report = 0usize;
    while !t.is_terminated() {
        let exited = exits_at.map_or(false, |k| report >= k);
        let a = t.report(exited);
        if let Action::PollAfter { ms } = a {
            slept += ms;
        }
        actions.push(a);
        report += 1;
    }
    (actions, slept, t)
}

#[test]
fn ignored_stop_escalates_within_window() {
    let (actions, slept, t) = run_termination(None);
    assert_eq!(actions[0], Action::StopGracefully);
    assert_eq!(actions.len(), MAX_POLLS as usize + 3);
    for a in &actions[1..=MAX_POLLS as usize] {
        assert_eq!(*a, Action::PollAfter { ms: POLL_INTERVAL_MS });
    }
    assert_eq!(actions[MAX_POLLS as usize + 1], Action::KillForcefully);
    assert_eq!(actions[MAX_POLLS as usize + 2], Action::Release);
    assert_eq!(slept, 1000);
    assert_eq!(t.phase, Phase::Terminated);
}

#[test]
fn graceful_exit_releases_without_escalation() {
    let (actions, slept, _) = run_termination(Some(0));
    assert_eq!(actions, vec![Action::StopGracefully, Action::Release]);
    assert_eq!(slept, 0);
    let (actions, slept, _) = run_termination(Some(3));
    assert_eq!(actions.len(), 5);
    assert_eq!(*actions.last().unwrap(), Action::Release);
    assert!(!actions.contains(&Action::KillForcefully));
    assert_eq!(slept, 150);
}

#[test]
fn terminated_is_absorbing() {
    let mut t = Termination { phase: Phase::Terminated };
    assert_eq!(t.report(false), Action::Nothing);
    assert_eq!(t.report(true), Action::Nothing);
    assert_eq!(t.phase, Phase::Terminated);
}

#[test]
fn platform_commands() {
    assert_eq!(
        graceful_command(Platform::ProcessGroup, 42),
        Command::SignalGroupTerminate { group: 42 }
    );
    assert_eq!(forceful_command(Platform::ProcessGroup, 42), Command::SignalGroupKill { group: 42 });
    assert_eq!(graceful_command(Platform::JobObject, 7), Command::KillProcess { pid: 7 });
    assert_eq!(forceful_command(Platform::JobObject, 7), Command::CloseJob);
    assert_eq!(graceful_command(Platform::SingleProcess, 9), Command::KillProcess { pid: 9 });
    assert_eq!(forceful_command(Platform::SingleProcess, 9), Command::KillProcess { pid: 9 });
}

#[test]
fn terminate_claimed_exactly_once() {
    let mut s = Supervisor::new(Platform::ProcessGroup);
    assert_eq!(s.adopt(1234), Ok(()));
    assert!(s.has_live_child());
    let first = s.claim_termination().unwrap();
    assert_eq!(first.0, 1234);
    assert_eq!(first.2, Action::StopGracefully);
    assert!(!s.has_live_child());
    for _ in 0..5 {
        assert!(s.claim_termination().is_none());
    }
    s.confirm_terminated(1234);
    assert_eq!(s.slot, Slot::Empty);
    assert!(s.claim_termination().is_none());
}

#[test]
fn supervisor_holds_one_child() {
    let mut s = Supervisor::new(Platform::JobObject);
    assert_eq!(s.adopt(1), Ok(()));
    assert_eq!(s.adopt(2), Err(SupervisorError::AlreadyRunning));
    assert_eq!(s.slot, Slot::Live { pid: 1 });
    s.observe_exit(2);
    assert_eq!(s.slot, Slot::Live { pid: 1 });
    s.observe_exit(1);
    assert_eq!(s.slot, Slot::Empty);
    assert!(s.claim_termination().is_none());
}

#[test]
fn launch_settings() {
    assert_eq!(decimal_string(0), "0");
    assert_eq!(decimal_string(3333), "3333");
    assert_eq!(decimal_string(4001), "4001");
    assert_eq!(server_url(SERVER_PORT), "http://127.0.0.1:3333");
    assert_eq!(
        navigation_script(SERVER_PORT),
        "window.location.replace('http://127.0.0.1:3333');"
    );
    let env = environment(4001, &"/app".to_string(), &Some("/data/db.sqlite".to_string()));
    let names: Vec<&str> = env.iter().map(|p| p.0.as_str()).collect();
    assert_eq!(names, vec!["PORT", "HOSTNAME", "NODE_ENV", "APP_ROOT", "SQLITE_DB_PATH"]);
    assert_eq!(env[0].1, "4001");
    assert_eq!(env[1].1, "127.0.0.1");
    assert_eq!(env[4].1, "/data/db.sqlite");
    assert_eq!(environment(3333, &"/app".to_string(), &None).len(), 4);
}

#[test]
fn navigation_policy() {
    assert!(should_navigate(true, TimeoutPolicy::StayIdle));
    assert!(!should_navigate(false, TimeoutPolicy::StayIdle));
    assert!(should_navigate(false, TimeoutPolicy::NavigateAnyway));
}

#[test]
fn lang_result_mapping() {
    assert_eq!(lang_result(Some(Detected::English)), LangResult::English);
    assert_eq!(lang_result(Some(Detected::German)), LangResult::German);
    assert_eq!(lang_result(Some(Detected::Other)), LangResult::Unknown);
    assert_eq!(lang_result(None), LangResult::Unknown);
}

#[test]
fn detects_english_and_german() {
    let sentences = vec![
        "This is a sentence written in the English language.".to_string(),
        "Dies ist ein Satz, der in deutscher Sprache geschrieben wurde.".to_string(),
        "".to_string(),
    ];
    let r = detect_languages(&sentences);
    assert_eq!(r, vec![LangResult::English, LangResult::German, LangResult::Unknown]);
    let d = EnglishGermanDetector::new();
    assert_eq!(d.detect(&sentences[1]), Some(Detected::German));
}
