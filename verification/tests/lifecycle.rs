use dev_panel::manager::{
    parse_config, resume_names, session_names, ConfigSource, Manager, Probe, SessionWrite,
};
use dev_panel::services::{
    Config, Service, ServiceConfig, Status, Wait, BACKOFF_INITIAL, BACKOFF_MAX, LOG_CAP,
    STARTING_GRACE, STOP_ESCALATE_AFTER,
};

fn config(name: &str) -> ServiceConfig {
    ServiceConfig {
        name: name.into(),
        cmd: format!("run {name}"),
        cwd: None,
        port: None,
        health_url: None,
        auto_restart: false,
    }
}

fn manager(cfgs: Vec<ServiceConfig>, stack: Option<Vec<&str>>) -> Manager {
    let stack = stack.map(|v| v.into_iter().map(String::from).collect());
    Manager::load(ConfigSource::Read(Ok(Config { services: cfgs, stack }))).unwrap()
}

fn ok(pid: i32) -> Result<i32, String> {
    Ok(pid)
}

fn err(e: &str) -> Result<i32, String> {
    Err(e.into())
}

fn logs(m: &Manager, i: usize) -> Vec<String> {
    m.services[i].logs.iter().cloned().collect()
}

#[test]
fn a_missing_configuration_has_no_services() {
    let m = Manager::load(ConfigSource::Missing).unwrap();
    assert!(m.services.is_empty());
    assert!(m.stack.is_none());
}

#[test]
fn configuration_errors_name_the_file() {
    let bad = Manager::load(ConfigSource::Read(Err("missing field `name`".into())));
    assert_eq!(bad.err().as_deref(), Some("dev-panel.toml: missing field `name`"));
    let unreadable = Manager::load(ConfigSource::Unreadable("permission denied".into()));
    assert_eq!(unreadable.err().as_deref(), Some("dev-panel.toml: permission denied"));
    assert_eq!(parse_config(Err("x".into())).err().as_deref(), Some("dev-panel.toml: x"));
    let good = parse_config(Ok(Config { services: vec![config("a")], stack: None })).unwrap();
    assert_eq!(good.services[0].name, "a");
}

#[test]
fn services_start_once() {
    let mut m = manager(vec![config("a")], None);
    let launch = m.launch(0).unwrap();
    assert_eq!((launch.service, launch.cmd.as_str(), launch.cwd), (0, "run a", None));
    assert_eq!(m.start(0, &err("no shell"), 10), Err("no shell".to_string()));
    assert!(!m.services[0].running());
    assert_eq!(m.start(0, &ok(42), 10), Ok(()));
    assert_eq!(m.services[0].pid(), Some(42));
    assert_eq!(m.services[0].status, Status::Starting);
    assert!(m.launch(0).is_none());
    // a second start is a no-op, whatever comes with it
    assert_eq!(m.start(0, &err("ignored"), 20), Ok(()));
    assert_eq!(m.services[0].pid(), Some(42));
    assert_eq!(m.services[0].started, Some(10));
}

#[test]
fn crashes_schedule_restarts_with_backoff() {
    let mut cfg = config("boom");
    cfg.auto_restart = true;
    let mut m = manager(vec![cfg], None);
    let mut now: u64 = 1_000;
    for wait in [1_000u64, 2_000, 4_000, 8_000, 16_000, 30_000, 30_000] {
        m.start(0, &ok(7), now).unwrap();
        let (kills, starts) = m.tick(&vec![Wait::Exited], now);
        assert!(kills.is_empty() && starts.is_empty());
        assert_eq!(m.services[0].status, Status::Scheduled);
        assert_eq!(m.services[0].restart_at, Some(now + wait));
        // not before the wait is over
        let early = m.tick(&vec![Wait::Exited], now + wait - 1);
        assert!(early.1.is_empty());
        let due = m.tick(&vec![Wait::Exited], now + wait);
        assert_eq!(due.1, vec![0]);
        now += wait;
    }
    assert_eq!(m.services[0].backoff, BACKOFF_MAX);
    // found up, it starts over
    m.start(0, &ok(8), now).unwrap();
    m.tick(&vec![Wait::Running { healthy: true }], now);
    assert_eq!(m.services[0].backoff, BACKOFF_INITIAL);
    assert_eq!(logs(&m, 0).last().unwrap(), "[dev-panel] process exited unexpectedly");
}

#[test]
fn services_without_auto_restart_stay_crashed() {
    let mut m = manager(vec![config("a")], None);
    m.start(0, &ok(7), 0).unwrap();
    let (_, starts) = m.tick(&vec![Wait::Exited], 5);
    assert!(starts.is_empty());
    assert_eq!(m.services[0].status, Status::Crashed);
    assert!(m.tick(&vec![Wait::Exited], 100_000).1.is_empty());
}

#[test]
fn stops_escalate_after_three_seconds() {
    let mut m = manager(vec![config("a")], None);
    m.start(0, &ok(7), 0).unwrap();
    assert_eq!(m.stop_target(0), Some(7));
    m.stop(0, &err("no such process"), 1_000);
    assert_eq!(logs(&m, 0), vec!["[dev-panel] stop failed: no such process"]);
    let still = vec![Wait::Running { healthy: true }];
    assert!(m.tick(&still, 1_000 + STOP_ESCALATE_AFTER - 1).0.is_empty());
    assert_eq!(m.tick(&still, 1_000 + STOP_ESCALATE_AFTER).0, vec![0]);
    assert_eq!(logs(&m, 0).last().unwrap(), "[dev-panel] escalated to SIGKILL");
    // the exit is seen on the next tick
    assert!(m.tick(&vec![Wait::Exited], 5_000).1.is_empty());
    assert_eq!(m.services[0].status, Status::Stopped);
}

#[test]
fn stopped_services_are_left_alone() {
    let mut cfg = config("a");
    cfg.auto_restart = true;
    let mut m = manager(vec![cfg], None);
    m.start(0, &ok(7), 0).unwrap();
    m.stop(0, &ok(0), 10);
    m.tick(&vec![Wait::Running { healthy: true }], 20);
    let backoff = m.services[0].backoff;
    m.tick(&vec![Wait::Exited], 30);
    for now in [40, 1_000_000, 2_000_000] {
        let (kills, starts) = m.tick(&vec![Wait::Exited], now);
        assert!(kills.is_empty() && starts.is_empty());
    }
    assert_eq!(m.services[0].status, Status::Stopped);
    assert_eq!((m.services[0].backoff, m.services[0].restart_at), (backoff, None));
    assert!(logs(&m, 0).is_empty());
}

#[test]
fn restarts_wait_for_the_exit() {
    let mut m = manager(vec![config("a")], None);
    // one that does not run is started
    assert_eq!(m.restart(0, &err("spawn failed"), 0), Err("spawn failed".to_string()));
    assert_eq!(m.restart(0, &ok(7), 0), Ok(()));
    assert_eq!(m.services[0].pid(), Some(7));
    // one that runs is stopped, and started once it has exited
    assert_eq!(m.restart(0, &ok(0), 10), Ok(()));
    assert_eq!(m.services[0].stop_requested, Some(10));
    assert_eq!(m.tick(&vec![Wait::Exited], 20).1, vec![0]);
    m.tick_start(0, &ok(8), 20);
    assert_eq!(m.services[0].pid(), Some(8));
    assert!(!m.services[0].user_stopped && !m.services[0].restart_pending);
    assert_eq!(m.services[0].status, Status::Starting);
    assert!(m.tick(&vec![Wait::Exited], 30).1.is_empty(), "once is enough");
}

#[test]
fn failed_restarts_are_logged() {
    let mut m = manager(vec![config("a")], None);
    m.tick_start(0, &err("gone"), 20);
    assert_eq!(logs(&m, 0), vec!["[dev-panel] restart failed: gone"]);
    assert_eq!(m.services[0].status, Status::Crashed);
}

#[test]
fn failed_waits_are_logged() {
    let mut m = manager(vec![config("a")], None);
    m.start(0, &ok(7), 0).unwrap();
    m.tick(&vec![Wait::Failed("EPERM".into())], 1);
    assert_eq!(logs(&m, 0), vec!["[dev-panel] wait failed: EPERM"]);
    assert!(m.services[0].running());
}

#[test]
fn health_has_a_grace_period() {
    let mut cfg = config("web");
    cfg.port = Some(3000);
    let mut s = Service::new(cfg);
    assert_eq!(s.health(false, 0), Status::Down);
    s.mark_started(9, 1_000);
    assert_eq!(s.health(false, 1_000 + STARTING_GRACE - 1), Status::Starting);
    assert_eq!(s.health(false, 1_000 + STARTING_GRACE), Status::Down);
    assert_eq!(s.health(true, 1_000), Status::Up);
    assert_eq!(Service::new(config("plain")).health(false, 0), Status::Up);
}

#[test]
fn probes() {
    let mut port = config("port");
    port.port = Some(3000);
    let mut url = config("url");
    url.health_url = Some("http://localhost:8080/ok".into());
    url.port = Some(8080);
    let mut tls = config("tls");
    tls.health_url = Some("https://localhost/ok".into());
    let mut m = manager(vec![port, url, tls, config("none")], None);
    assert!(matches!(m.probe(0), Probe::Nothing));
    for i in 0..4 {
        m.start(i, &ok(10 + i as i32), 0).unwrap();
    }
    assert!(matches!(m.probe(0), Probe::Tcp(3000)));
    match m.probe(1) {
        Probe::Http(t) => assert_eq!((t.port, t.path.as_str()), (8080, "/ok")),
        _ => panic!("expected an HTTP probe"),
    }
    assert!(matches!(m.probe(2), Probe::Unsupported));
    assert!(matches!(m.probe(3), Probe::Nothing));
    m.stop(0, &ok(0), 1);
    assert!(matches!(m.probe(0), Probe::Nothing));
}

#[test]
fn status_words() {
    let words = [
        (Status::Stopped, "stopped"),
        (Status::Starting, "starting"),
        (Status::Up, "up"),
        (Status::Down, "down"),
        (Status::Crashed, "crashed"),
        (Status::Scheduled, "restarting"),
    ];
    for (status, word) in words {
        assert_eq!(status.label(), word);
    }
    let mut s = Service::new(config("a"));
    s.status = Status::Up;
    assert_eq!(s.status_text(), "up");
    s.cfg.port = Some(80);
    assert_eq!(s.status_text(), "up (port)");
    s.cfg.health_url = Some("http://localhost/".into());
    assert_eq!(s.status_text(), "up (200)");
    s.status = Status::Down;
    assert_eq!(s.status_text(), "down");
}

#[test]
fn logs_keep_the_last_lines() {
    let mut m = manager(vec![config("a")], None);
    for i in 0..LOG_CAP + 2 {
        m.push_log(0, format!("line {i}"));
    }
    assert_eq!(m.services[0].logs.len(), LOG_CAP);
    assert_eq!(m.services[0].logs[0], "line 2");
    assert_eq!(m.services[0].logs[LOG_CAP - 1], format!("line {}", LOG_CAP + 1));
}

#[test]
fn sessions_are_written_and_resumed() {
    let names = ["front end", "api", "worker"];
    let cfgs = || names.iter().map(|n| config(n)).collect::<Vec<_>>();
    let mut m = manager(cfgs(), None);
    assert!(m.save_session().is_none());
    m.start(0, &ok(1), 0).unwrap();
    m.start(2, &ok(3), 0).unwrap();
    let saved = match m.save_session() {
        Some(SessionWrite::Write(s)) => s,
        _ => panic!("expected a session"),
    };
    assert_eq!(saved, "front end\nworker");
    assert!(m.save_session().is_none(), "nothing has changed since");

    let mut next = manager(cfgs(), None);
    let read = resume_names(&Some(saved));
    assert_eq!(read, vec!["front end", "worker"]);
    for name in &read {
        assert!(next.resume_launch(name).is_some());
        assert_eq!(next.resume_session(name, &ok(5), 0), format!("resumed {name}"));
    }
    let running: Vec<bool> = next.services.iter().map(|s| s.running()).collect();
    assert_eq!(running, vec![true, false, true]);

    m.stop(0, &ok(0), 1);
    m.stop(2, &ok(0), 1);
    assert!(matches!(m.save_session(), Some(SessionWrite::Remove)));
}

#[test]
fn sessions_with_surprises() {
    assert_eq!(session_names("  a \r\n\n\t\nb"), vec!["a", "b"]);
    assert!(session_names("").is_empty());
    assert!(resume_names(&None).is_empty());
    let mut m = manager(vec![config("a")], None);
    assert!(m.resume_launch("x").is_none());
    assert_eq!(m.resume_session("x", &ok(1), 0), "session had unknown service x");
    assert_eq!(m.resume_session("a", &err("no"), 0), "resume a failed: no");
    assert!(!m.services[0].running());
}

#[test]
fn stacks_have_an_order() {
    let cfgs = || vec![config("a"), config("b"), config("c")];
    assert_eq!(manager(cfgs(), None).stack_order(), vec![0, 1, 2]);
    let m = manager(cfgs(), Some(vec!["c", "nobody", "a", "c"]));
    assert_eq!(m.stack_order(), vec![2, 0]);
    assert!(manager(cfgs(), Some(vec![])).stack_order().is_empty());
}

#[test]
fn adopted_services_come_last() {
    let mut m = manager(vec![config("a")], None);
    m.adopt(config("b"));
    assert_eq!(m.services.len(), 2);
    assert_eq!(m.services[1].cfg.name, "b");
    assert!(!m.services[1].running());
}
