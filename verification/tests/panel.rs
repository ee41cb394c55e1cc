use dev_panel::adopt::{block, is_config_quotable, is_quotable, service_block};
use dev_panel::app::{
    App, Pane, Pending, Rect, Respawn, RespawnWatch, Revival, Row, RowKind, Strategy, CPU_HISTORY,
    EVENT_CAP, KILL_ESCALATE_AFTER, RESPAWN_CRASH_WINDOW, RESPAWN_GIVE_UP, RESTART_COL_WIDTH,
};
use dev_panel::confirm::{docker_restart_message, docker_stop_message, Call};
use dev_panel::docker::Container;
use dev_panel::keys::{Key, MouseEvent, Step};
use dev_panel::manager::{ConfigSource, Manager};
use dev_panel::platform::Os;
use dev_panel::ports::PortEntry;
use dev_panel::quick::StackStep;
use dev_panel::rows::row_matches;
use dev_panel::services::{Config, ServiceConfig, Status};
use dev_panel::system::{command_line, no_lookup, Lookup, Process};
use dev_panel::table::TableState;
use dev_panel::ui::{
    centered, coloured_cells, column_widths, format_duration, header, row_cells, status_style,
    tone_of, Extent, PaneContent, TextPane, Tone,
};
use dev_panel::watch::{ChildState, OpState, Revive};

const OWN: i32 = 900;
const PARENT: i32 = 800;
const GRANDPARENT: i32 = 700;

fn config(name: &str, port: Option<u16>) -> ServiceConfig {
    ServiceConfig {
        name: name.into(),
        cmd: format!("run {name}"),
        cwd: None,
        port,
        health_url: None,
        auto_restart: false,
    }
}

fn process(pid: i32, cmd: &[&str]) -> Process {
    Process {
        pid,
        parent: None,
        name: format!("proc{pid}"),
        user: Some("dev".into()),
        cmd: cmd.iter().map(|s| s.to_string()).collect(),
        cwd: Some(format!("/srv/{pid}")),
        run_time: 3_725,
        cpu: 12,
        cpu_text: "12".into(),
        memory: 5 * 1024 * 1024 + 17,
        environ: Vec::new(),
    }
}

fn entry(port: u16, pid: i32) -> PortEntry {
    PortEntry { port, pid, ..PortEntry::default() }
}

fn container(id: &str, name: &str) -> Container {
    Container {
        id: id.into(),
        name: name.into(),
        image: "pg:16".into(),
        ports: "0.0.0.0:5432->5432/tcp".into(),
        status: "Up 2 hours".into(),
    }
}

/// A panel over two services, two foreign processes, one of them `npm`, and a container.
fn panel() -> App {
    let m = Manager::load(ConfigSource::Read(Ok(Config {
        services: vec![config("web", Some(3000)), config("worker", None)],
        stack: Some(vec!["worker".into(), "web".into()]),
    })))
    .unwrap();
    let mut app = App::new(m, Os::Linux, OWN, false);
    look(&mut app);
    app
}

fn processes() -> Vec<Process> {
    let mut own = process(OWN, &["dev-panel"]);
    own.parent = Some(PARENT);
    vec![
        own,
        process(500, &["node", "server.js"]),
        process(501, &["/usr/bin/npm", "run", "dev"]),
    ]
}

fn look(app: &mut App) {
    app.poll(
        processes(),
        Vec::new(),
        Ok(vec![entry(4000, 500), entry(4001, 501)]),
        Ok(vec![container("c1", "pg")]),
    );
    app.refresh();
}

fn row_of(app: &App, name: &str) -> usize {
    app.rows.iter().position(|r| r.name == name).unwrap()
}

fn select(app: &mut App, name: &str) {
    let i = row_of(app, name);
    app.table.select(i);
}

fn ok(pid: i32) -> Result<i32, String> {
    Ok(pid)
}

fn bad(e: &str) -> Result<i32, String> {
    Err(e.into())
}

fn names(app: &App) -> Vec<&str> {
    app.rows.iter().map(|r| r.name.as_str()).collect()
}

// ------------------------------------------------------------------ rows

#[test]
fn rows_are_services_processes_containers() {
    let app = panel();
    assert_eq!(names(&app), vec!["web", "worker", "proc500", "proc501", "pg"]);
    assert!(matches!(app.rows[0].kind, RowKind::Service(0)));
    assert_eq!(app.rows[0].status, "stopped");
    assert_eq!(app.rows[0].user, "-");
    assert_eq!(app.rows[2].port, Some(4000));
    assert_eq!(app.rows[2].user, "dev");
    assert_eq!(app.rows[2].cmd, "node server.js");
    assert_eq!(app.rows[2].status, "listen");
    assert_eq!(app.rows[4].port, Some(5432));
    assert_eq!(app.rows[4].pid, None);
    assert_eq!(app.rows[4].user, "docker");
    assert_eq!(app.rows[4].cmd, "pg:16  0.0.0.0:5432->5432/tcp");
    assert_eq!(app.table.selected, Some(0));
}

#[test]
fn strategies() {
    let mut app = panel();
    let words: Vec<&str> = app.rows.iter().map(|r| r.strategy.label()).collect();
    assert_eq!(words, vec!["managed", "managed", "naive", "shell", "docker"]);
    // the port of a configured service
    app.poll(
        processes(),
        vec![Lookup {
            cgroup: Some("0::/system.slice/x.service".into()),
            ..no_lookup(501)
        }],
        Ok(vec![entry(3000, 500), entry(4001, 501), entry(4002, 777)]),
        Ok(Vec::new()),
    );
    app.refresh();
    let words: Vec<&str> = app.rows.iter().map(|r| r.strategy.label()).collect();
    assert_eq!(words, vec!["managed", "managed", "configured", "systemd", "unknown"]);
}

#[test]
fn managed_processes_are_not_listed_twice() {
    let mut app = panel();
    app.manager.start(0, &ok(500), 0).unwrap();
    app.manager.start(1, &ok(77), 0).unwrap();
    app.poll(
        processes(),
        Vec::new(),
        // 500 is the child of a service; 501 listens on the port of one that runs
        Ok(vec![entry(4000, 500), entry(3000, 501), entry(77, 78)]),
        Ok(Vec::new()),
    );
    app.refresh();
    assert_eq!(app.rows.iter().filter(|r| matches!(r.kind, RowKind::Process)).count(), 1);
    assert_eq!(app.rows[2].pid, Some(78));
}

#[test]
fn conflicts_are_shown_and_told_once() {
    let mut app = panel();
    app.warned_conflicts = false;
    app.poll(processes(), Vec::new(), Ok(vec![entry(3000, 500)]), Ok(Vec::new()));
    app.refresh();
    assert_eq!(app.rows[0].status, "conflict");
    assert_eq!(app.message, "port conflict: web (port 3000)");
    app.message = "other".into();
    app.refresh();
    assert_eq!(app.message, "other");
}

#[test]
fn failed_looks_are_reported() {
    let mut app = panel();
    let unit = Lookup { cgroup: Some("0::/a.service".into()), ..no_lookup(500) };
    app.poll(processes(), vec![unit], Ok(vec![entry(4000, 500), entry(4001, 501)]), Ok(Vec::new()));
    app.poll(processes(), Vec::new(), Err("no lsof".into()), Ok(Vec::new()));
    assert_eq!(app.message, "port scan failed: no lsof");
    app.refresh();
    assert_eq!(app.rows.len(), 4, "the last scan is kept");
    assert_eq!(app.rows[2].strategy.label(), "systemd", "and what was looked up for it");
    app.poll(processes(), Vec::new(), Ok(Vec::new()), Err("no daemon".into()));
    assert_eq!(app.message, "docker unavailable: no daemon");
    assert!(!app.docker_ok && app.containers.is_empty());
    // not asked again
    app.poll(processes(), Vec::new(), Ok(Vec::new()), Ok(vec![container("c", "x")]));
    assert!(app.containers.is_empty());
}

#[test]
fn filters_ignore_case() {
    let mut app = panel();
    app.filter = "WORK".into();
    app.build_rows();
    assert_eq!(names(&app), vec!["worker"]);
    app.filter = "Server.JS".into();
    app.build_rows();
    assert_eq!(names(&app), vec!["proc500"]);
    app.filter = "543".into();
    app.build_rows();
    assert_eq!(names(&app), vec!["pg"]);
    assert_eq!(app.table.selected, Some(0));
    app.filter = "nothing like it".into();
    app.build_rows();
    assert!(app.rows.is_empty());
    assert!(app.selected_row().is_none());
    assert!(row_matches("web", "run", Some(3000), "300"));
    assert!(!row_matches("web", "run", None, "300"));
}

#[test]
fn selections_are_kept_in_range() {
    let mut app = panel();
    app.table.select(9);
    app.build_rows();
    assert_eq!(app.table.selected, Some(4));
    app.on_key(Key::Down);
    assert_eq!(app.table.selected, Some(5));
    assert!(app.selected_row().is_none());
    app.build_rows();
    assert_eq!(app.table.selected, Some(4));
}

#[test]
fn histories_keep_sixty_samples() {
    let mut app = panel();
    for _ in 0..CPU_HISTORY + 5 {
        app.build_rows();
    }
    assert_eq!(app.cpu_hist[&500].len(), CPU_HISTORY);
    assert!(app.cpu_hist[&500].iter().all(|c| *c == 12));
    app.poll(processes(), Vec::new(), Ok(vec![entry(4001, 501)]), Ok(Vec::new()));
    app.refresh();
    assert!(!app.cpu_hist.contains_key(&500));
}

#[test]
fn command_lines_fall_back_to_ps() {
    let p = process(5, &[]);
    let l = Lookup { ps: Some("python  app.py\n".into()), ..no_lookup(5) };
    assert_eq!(command_line(&p, &l), vec!["python", "app.py"]);
    assert_eq!(command_line(&process(5, &["a b"]), &l), vec!["a b"]);
    assert!(command_line(&p, &no_lookup(5)).is_empty());
}

#[test]
fn table_states() {
    let mut t = TableState::default();
    t.select_previous();
    assert_eq!(t.selected, Some(usize::MAX));
    let mut t = TableState { selected: None, offset: 3 };
    t.select_next();
    assert_eq!((t.selected, t.offset), (Some(0), 3));
    t.select_next();
    assert_eq!(t.selected, Some(1));
    t.select_previous();
    t.select_previous();
    assert_eq!((t.selected, t.offset), (Some(0), 3));
    t.select(7);
    assert_eq!((t.selected, t.offset), (Some(7), 3));
}

// ------------------------------------------------------------------ guardrails and kills

#[test]
fn guarded_processes_cannot_be_killed() {
    let mut app = panel();
    let mut all = processes();
    let mut shell = process(PARENT, &["bash"]);
    shell.parent = Some(GRANDPARENT);
    let mut terminal = process(GRANDPARENT, &["tmux"]);
    terminal.parent = Some(1);
    all.push(shell);
    all.push(terminal);
    let mut child = process(950, &["node"]);
    child.parent = Some(OWN);
    all.push(child);
    let mut roots = process(600, &["sshd"]);
    roots.user = Some("root".into());
    all.push(roots);
    app.poll(
        all,
        Vec::new(),
        Ok(vec![entry(1, 1), entry(2, OWN), entry(3, PARENT), entry(4, 600), entry(5, GRANDPARENT), entry(6, 950)]),
        Ok(Vec::new()),
    );
    app.refresh();
    let reasons = [
        (1, "refusing to touch PID 1"),
        (OWN, "that's dev-panel's own process tree"),
        (PARENT, "that's dev-panel's own process tree"),
        (GRANDPARENT, "that's dev-panel's own process tree"),
        (600, "proc600 is root-owned; not running as root"),
    ];
    for (pid, reason) in reasons {
        let i = app.rows.iter().position(|r| r.pid == Some(pid)).unwrap();
        app.table.select(i);
        app.on_key(Key::Char('k'));
        assert!(app.pending.is_none());
        assert_eq!(app.message, reason);
        app.message.clear();
        app.request_restart(&no_lookup(pid));
        assert!(app.pending.is_none());
        assert_eq!(app.message, reason);
        assert_eq!(app.kill_guard(&app.rows[i]).as_deref(), Some(reason));
    }
    // a child of the panel is no part of what it hangs on
    assert!(!app.is_own(950) && app.is_own(GRANDPARENT));
    select(&mut app, "proc950");
    app.request_kill();
    assert!(matches!(app.pending, Some(Pending::Kill { pid: 950, .. })));
    app.is_root = true;
    let i = app.rows.iter().position(|r| r.pid == Some(600)).unwrap();
    app.table.select(i);
    app.request_kill();
    assert!(matches!(app.pending, Some(Pending::Kill { pid: 600, .. })));
}

#[test]
fn kills_are_confirmed_and_escalate() {
    let mut app = panel();
    select(&mut app, "proc500");
    assert_eq!(app.on_key(Key::Char('k')), Step::Stay);
    assert_eq!(app.describe_pending().as_deref(), Some("Kill 500 (proc500)?"));
    assert_eq!(app.on_key(Key::Char('y')), Step::Confirm);
    let calls = app.pending_calls();
    assert!(matches!(calls[..], [Call::Terminate(500)]));
    app.confirm_pending(&vec![ok(0)], 1_000);
    assert_eq!(app.message, "SIGTERM → 500 (proc500)");
    assert!(app.pending.is_none());
    assert!(app.pending_calls().is_empty());

    let due = 1_000 + KILL_ESCALATE_AFTER;
    assert!(app.overdue_kills(due - 1).is_empty());
    app.watch_kills(&Vec::new(), due - 1);
    assert_eq!(app.term_sent.len(), 1);
    assert_eq!(app.overdue_kills(due), vec![500]);
    app.watch_kills(&vec![Ok(())], due);
    assert_eq!(app.message, "SIGKILL → 500 (ignored SIGTERM)");
    assert!(app.term_sent.is_empty());
}

#[test]
fn kills_that_fail_or_succeed_at_once() {
    let mut app = panel();
    select(&mut app, "proc500");
    app.request_kill();
    app.confirm_pending(&vec![bad("EPERM")], 0);
    assert_eq!(app.message, "SIGTERM 500 failed: EPERM");
    assert!(app.term_sent.is_empty());
    app.term_sent.push((12345, 0));
    app.watch_kills(&Vec::new(), 1);
    assert_eq!(app.message, "12345 exited after SIGTERM");
    app.term_sent.push((500, 0));
    app.watch_kills(&vec![Err("EPERM".into())], KILL_ESCALATE_AFTER);
    assert_eq!(app.message, "SIGKILL 500 failed: EPERM");
}

#[test]
fn esc_cancels_then_closes_then_clears() {
    let mut app = panel();
    select(&mut app, "proc500");
    app.on_key(Key::Char('k'));
    app.on_key(Key::Char('l'));
    app.filter = "proc".into();
    app.on_key(Key::Esc);
    assert!(app.pending.is_none());
    assert_eq!(app.message, "cancelled");
    assert_eq!(app.pane, Some(Pane::Logs));
    app.on_key(Key::Esc);
    assert!(app.pane.is_none());
    assert_eq!(app.filter, "proc");
    app.on_key(Key::Esc);
    assert!(app.filter.is_empty());
    assert_eq!(app.rows.len(), 5);
}

// ------------------------------------------------------------------ restarts

#[test]
fn foreign_processes_are_respawned_where_they_ran() {
    let mut app = panel();
    select(&mut app, "proc500");
    assert_eq!(app.on_key(Key::Char('r')), Step::RequestRestart);
    assert_eq!(app.lookup_pid(), Some(500));
    app.request_restart(&no_lookup(500));
    match &app.pending {
        Some(Pending::Restart { pid, cmd, cwd, strategy, .. }) => {
            assert_eq!(*pid, 500);
            assert_eq!(cmd.join(" "), "node server.js");
            assert_eq!(cwd.as_deref(), Some("/srv/500"));
            assert!(matches!(strategy, Strategy::Naive));
        }
        _ => panic!("expected a pending restart"),
    }
    assert_eq!(app.describe_pending().as_deref(), Some("Restart 500 (proc500)?"));
    assert_eq!(
        app.preview_pending(),
        vec!["strategy: naive", "cmd: node server.js", "cwd: /srv/500"]
    );
    assert_eq!(
        app.modal_lines().unwrap()[0],
        "Restart 500 (proc500)?  y = confirm, Esc = cancel"
    );
    app.confirm_pending(&vec![ok(0)], 100);
    assert_eq!(app.message, "restarting proc500: SIGTERM → 500");
    // still there: wait
    assert!(matches!(app.respawn_revive(0), Revive::Nothing));
    assert_eq!(app.watch_respawns(0, &ok(0), 200), 1);
    assert_eq!(app.respawns.len(), 1);
    // gone: run it again
    app.poll(vec![process(501, &["x"])], Vec::new(), Ok(Vec::new()), Ok(Vec::new()));
    match app.respawn_revive(0) {
        Revive::Command { cmd, cwd, shell } => {
            assert_eq!(cmd, vec!["node", "server.js"]);
            assert_eq!(cwd.as_deref(), Some("/srv/500"));
            assert!(!shell);
        }
        _ => panic!("expected a command"),
    }
    assert_eq!(app.watch_respawns(0, &ok(550), 300), 0);
    assert_eq!(app.message, "respawned as 550");
    assert!(app.respawns.is_empty());
    assert_eq!((app.respawn_watches[0].pid, app.respawn_watches[0].since), (550, 300));
}

#[test]
fn respawns_give_up_or_fail() {
    let mut app = panel();
    let command = || Revival::Command { cmd: vec!["node".into()], cwd: None, shell: true };
    app.respawns.push(Respawn { pid: 500, revival: command(), since: 0 });
    assert_eq!(app.watch_respawns(0, &ok(0), RESPAWN_GIVE_UP - 1), 1);
    assert_eq!(app.watch_respawns(0, &ok(0), RESPAWN_GIVE_UP), 0);
    assert_eq!(app.message, "500 won't exit; respawn abandoned");
    app.respawns.push(Respawn { pid: 12345, revival: command(), since: 0 });
    assert_eq!(app.watch_respawns(0, &bad("ENOENT"), 1), 0);
    assert_eq!(app.message, "respawn failed: ENOENT");
    assert!(app.respawn_watches.is_empty());
}

#[test]
fn wrappers_are_respawned_through_the_shell() {
    let mut app = panel();
    select(&mut app, "proc501");
    app.request_restart(&no_lookup(501));
    app.confirm_pending(&vec![ok(0)], 0);
    assert!(matches!(app.respawns[0].revival, Revival::Command { shell: true, .. }));
}

#[test]
fn configured_restarts_start_the_service() {
    let mut app = panel();
    app.poll(processes(), Vec::new(), Ok(vec![entry(3000, 500)]), Ok(Vec::new()));
    app.refresh();
    select(&mut app, "proc500");
    app.request_restart(&no_lookup(500));
    assert_eq!(app.preview_pending()[0], "strategy: configured");
    app.confirm_pending(&vec![ok(0)], 0);
    app.poll(Vec::new(), Vec::new(), Ok(Vec::new()), Ok(Vec::new()));
    match app.respawn_revive(0) {
        Revive::Service(l) => assert_eq!(l.cmd, "run web"),
        _ => panic!("expected the service"),
    }
    app.watch_respawns(0, &ok(70), 50);
    assert_eq!(app.manager.services[0].pid(), Some(70));
    assert_eq!(app.message, "started web");
    // by now the service runs
    app.respawns.push(Respawn { pid: 500, revival: Revival::Service(0), since: 0 });
    assert!(matches!(app.respawn_revive(0), Revive::Nothing));
    app.watch_respawns(0, &ok(0), 55);
    assert_eq!(app.message, "web is already running");
    assert_eq!(app.manager.services[0].pid(), Some(70));
    app.respawns.push(Respawn { pid: 500, revival: Revival::Service(1), since: 0 });
    app.watch_respawns(0, &bad("no sh"), 60);
    assert_eq!(app.message, "start worker failed: no sh");
}

#[test]
fn supervised_processes_are_restarted_by_their_supervisor() {
    let mut app = panel();
    select(&mut app, "proc500");
    let unit = Lookup {
        cgroup: Some("0::/system.slice/my.service\n".into()),
        ..no_lookup(500)
    };
    app.request_restart(&unit);
    assert_eq!(
        app.describe_pending().as_deref(),
        Some("Restart proc500 (500) via systemctl restart my.service?")
    );
    match &app.pending_calls()[..] {
        [Call::Systemctl(u)] => assert_eq!(u, "my.service"),
        _ => panic!("expected systemctl"),
    }
    app.confirm_pending(&vec![ok(0)], 0);
    assert_eq!(app.message, "systemctl restarted my.service");
    assert!(app.term_sent.is_empty() && app.respawns.is_empty());
    app.request_restart(&unit);
    app.confirm_pending(&vec![bad("denied")], 0);
    assert_eq!(app.message, "systemctl restart my.service failed: denied");

    app.os = Os::MacOs;
    let agent = Lookup { launchctl: Some("500\t0\tcom.my\n".into()), ..no_lookup(500) };
    app.request_restart(&agent);
    assert_eq!(
        app.describe_pending().as_deref(),
        Some("Restart proc500 (500) via launchctl kickstart -k com.my?")
    );
    assert!(matches!(&app.pending_calls()[..], [Call::Launchctl(l)] if l == "com.my"));
    app.confirm_pending(&vec![ok(0)], 0);
    assert_eq!(app.message, "launchctl restarted com.my");
    app.request_restart(&agent);
    app.confirm_pending(&vec![bad("denied")], 0);
    assert_eq!(app.message, "launchctl kickstart com.my failed: denied");
}

#[test]
fn unknown_commands_cannot_be_restarted() {
    let mut app = panel();
    app.poll(vec![process(500, &[])], Vec::new(), Ok(vec![entry(4000, 500)]), Ok(Vec::new()));
    app.refresh();
    select(&mut app, "proc500");
    app.request_restart(&no_lookup(500));
    assert!(app.pending.is_none());
    assert_eq!(app.message, "no command line captured; can't restart");
    app.request_adopt(&no_lookup(500));
    assert_eq!(app.message, "no command line captured; can't adopt");
}

#[test]
fn instant_exits_are_reported() {
    let mut app = panel();
    let watch = |pid: i32, since: u64| RespawnWatch { pid, cmd: vec!["sh".into(), "x".into()], since };
    app.respawn_watches.push(watch(1, 0));
    app.respawn_watches.push(watch(2, 100));
    app.respawn_watches.push(watch(3, 100));
    let now = RESPAWN_CRASH_WINDOW;
    app.watch_respawn_crashes(
        &vec![
            ChildState::Running,
            ChildState::Running,
            ChildState::Exited { status: "exit status: 1".into(), stderr: " boom \n".into() },
        ],
        now,
    );
    assert_eq!(
        app.message,
        "respawn of sh x exited immediately (exit status: 1): boom. Naive restart runs outside \
         the original shell/wrapper env — consider making it a managed service in dev-panel.toml \
         instead."
    );
    // the first has survived the window, the second is watched on
    assert_eq!(app.respawn_watches.iter().map(|w| w.pid).collect::<Vec<_>>(), vec![2]);
    app.watch_respawn_crashes(
        &vec![ChildState::Exited { status: "signal: 9".into(), stderr: String::new() }],
        now,
    );
    assert!(app.message.contains("(signal: 9): no output."));
    app.respawn_watches.push(watch(4, now));
    app.message.clear();
    app.watch_respawn_crashes(&vec![ChildState::Unknown], now);
    assert!(app.respawn_watches.is_empty() && app.message.is_empty());
}

// ------------------------------------------------------------------ services and stacks

#[test]
fn services_are_stopped_and_restarted() {
    let mut app = panel();
    app.request_kill();
    assert_eq!(app.message, "service is not running");
    app.request_restart(&no_lookup(0));
    assert_eq!(app.describe_pending().as_deref(), Some("Restart service web?"));
    assert_eq!(
        app.preview_pending(),
        vec!["strategy: managed", "cmd: run web", "cwd: -"]
    );
    match &app.pending_calls()[..] {
        [Call::Spawn(l)] => assert_eq!(l.cmd, "run web"),
        _ => panic!("expected a spawn"),
    }
    app.confirm_pending(&vec![bad("no sh")], 0);
    assert_eq!(app.message, "restart failed: no sh");
    app.request_restart(&no_lookup(0));
    app.confirm_pending(&vec![ok(70)], 5);
    assert_eq!(app.message, "restarting web");
    assert_eq!(app.manager.services[0].pid(), Some(70));

    app.request_kill();
    assert_eq!(app.describe_pending().as_deref(), Some("Stop service web?"));
    assert!(matches!(app.pending_calls()[..], [Call::Terminate(70)]));
    app.confirm_pending(&vec![ok(0)], 9);
    assert_eq!(app.message, "stopping web");
    assert_eq!(app.manager.services[0].stop_requested, Some(9));
}

#[test]
fn containers_are_stopped_and_restarted() {
    let mut app = panel();
    select(&mut app, "pg");
    app.request_kill();
    assert_eq!(app.describe_pending().as_deref(), Some("Stop container pg?"));
    assert!(matches!(&app.pending_calls()[..], [Call::DockerStop { id, .. }] if id == "c1"));
    app.confirm_pending(&vec![ok(0)], 0);
    assert_eq!(app.message, "stopping container pg…");
    app.request_restart(&no_lookup(0));
    assert_eq!(app.describe_pending().as_deref(), Some("Restart container pg?"));
    assert!(matches!(&app.pending_calls()[..], [Call::DockerRestart { id, .. }] if id == "c1"));
    app.confirm_pending(&vec![ok(0)], 0);
    assert_eq!(app.message, "restarting container pg…");
    assert_eq!(docker_stop_message("pg", &Ok(())), "stopped container pg");
    assert_eq!(docker_stop_message("pg", &Err("x".into())), "docker stop pg failed: x");
    assert_eq!(docker_restart_message("pg", &Ok(())), "restarted container pg");
    assert_eq!(docker_restart_message("pg", &Err("x".into())), "docker restart pg failed: x");
}

#[test]
fn docker_results_are_shown_when_they_come() {
    let mut app = panel();
    app.message = "unrelated".into();
    assert_eq!(app.watch_docker_ops(&vec![OpState::Waiting]), vec![0]);
    assert_eq!(app.message, "unrelated");
    let left = app.watch_docker_ops(&vec![
        OpState::Gone,
        OpState::Waiting,
        OpState::Done("slow op done".into()),
        OpState::Waiting,
    ]);
    assert_eq!(left, vec![1, 3]);
    assert_eq!(app.message, "slow op done");
}

#[test]
fn the_selected_service_is_started() {
    let mut app = panel();
    assert_eq!(app.on_key(Key::Char('s')), Step::StartSelected);
    assert_eq!(app.start_launch().unwrap().cmd, "run web");
    app.start_selected(&bad("no sh"), 0);
    assert_eq!(app.message, "start web failed: no sh");
    app.start_selected(&ok(70), 0);
    assert_eq!(app.message, "started web");
    assert_eq!(app.rows[0].status, "starting");
    assert!(app.start_launch().is_none());
    app.start_selected(&ok(71), 0);
    assert_eq!(app.message, "already running (k stops it)");
    assert_eq!(app.manager.services[0].pid(), Some(70));
    select(&mut app, "pg");
    app.start_selected(&ok(72), 0);
    assert_eq!(app.message, "s starts managed services only (see dev-panel.toml)");
}

#[test]
fn the_stack_is_started_in_order() {
    let mut app = panel();
    assert_eq!(app.on_key(Key::Char('S')), Step::StartAll);
    let step = |app: &App, replies: Vec<Result<i32, String>>| match app.next_start(&replies) {
        StackStep::Spawn(l) => Some((l.service, l.cmd)),
        StackStep::Skip => None,
        StackStep::Done => panic!("not at the end"),
    };
    assert_eq!(step(&app, vec![]), Some((1, "run worker".to_string())));
    assert_eq!(step(&app, vec![ok(70)]), Some((0, "run web".to_string())));
    assert_eq!(step(&app, vec![bad("no sh")]), None, "nothing is started after a failure");
    assert!(matches!(app.next_start(&vec![ok(70), ok(71)]), StackStep::Done));
    app.start_all(&vec![bad("no sh"), ok(71)], 0);
    assert_eq!(app.message, "start worker failed: no sh");
    assert!(!app.manager.services[0].running(), "nothing is started after a failure");
    app.start_all(&vec![ok(70), ok(71)], 0);
    assert_eq!(app.message, "started 2 service(s)");
    assert_eq!(app.manager.services[1].pid(), Some(70));
    assert_eq!(app.manager.services[0].pid(), Some(71));
    assert_eq!(step(&app, vec![]), None, "it runs");
    assert_eq!(step(&app, vec![bad("ignored")]), None);
    app.start_all(&vec![bad("ignored"), bad("ignored")], 0);
    assert_eq!(app.message, "started 0 service(s)");
}

#[test]
fn the_stack_is_stopped_in_reverse_and_restarted_in_order() {
    let mut app = panel();
    app.start_all(&vec![ok(70), ok(71)], 0);
    app.on_key(Key::Char('K'));
    assert_eq!(app.describe_pending().as_deref(), Some("Stop the whole stack?"));
    assert!(matches!(app.pending_calls()[..], [Call::Terminate(71), Call::Terminate(70)]));
    app.on_key(Key::Char('R'));
    assert_eq!(app.describe_pending().as_deref(), Some("Restart the whole stack?"));
    assert!(matches!(app.pending_calls()[..], [Call::Terminate(70), Call::Terminate(71)]));
    app.on_key(Key::Char('K'));
    app.confirm_pending(&vec![ok(0), bad("EPERM")], 5);
    assert_eq!(app.message, "stopping the stack");
    assert!(app.manager.services.iter().all(|s| s.user_stopped));
    // the second reply belongs to the worker, which is stopped last
    assert_eq!(app.manager.services[1].logs[0], "[dev-panel] stop failed: EPERM");
    assert!(app.manager.services[0].logs.is_empty());
}

#[test]
fn failures_to_restart_the_stack_are_told() {
    let mut app = panel();
    app.on_key(Key::Char('R'));
    app.confirm_pending(&vec![bad("no sh"), ok(70)], 0);
    assert_eq!(app.message, "restart worker failed: no sh");
    assert_eq!(app.manager.services[0].pid(), Some(70));
    assert_eq!(app.events[app.events.len() - 2], "restarting the stack");
}

#[test]
fn an_empty_configuration_has_no_stack() {
    let m = Manager::load(ConfigSource::Missing).unwrap();
    let mut app = App::new(m, Os::Linux, OWN, false);
    assert_eq!(app.message, "ready");
    let nothing = "no services configured (dev-panel.toml)";
    for c in ['K', 'R'] {
        app.message.clear();
        app.on_key(Key::Char(c));
        assert_eq!(app.message, nothing);
        assert!(app.pending.is_none());
    }
    app.message.clear();
    app.start_all(&Vec::new(), 0);
    assert_eq!(app.message, nothing);
}

// ------------------------------------------------------------------ adoption

#[test]
fn processes_are_adopted() {
    let mut app = panel();
    select(&mut app, "proc500");
    assert_eq!(app.on_key(Key::Char('a')), Step::RequestAdopt);
    assert_eq!(app.adopt_pid(), Some(500));
    app.request_adopt(&no_lookup(500));
    assert_eq!(app.describe_pending().as_deref(), Some("Adopt proc500 into dev-panel.toml?"));
    let text = match &app.pending_calls()[..] {
        [Call::AppendConfig(t)] => t.clone(),
        _ => panic!("expected a new block"),
    };
    assert_eq!(
        text,
        "\n[[service]]\nname = \"proc500\"\ncmd = \"node server.js\"\ncwd = \"/srv/500\"\nport = 4000\n"
    );
    app.confirm_pending(&vec![bad("read-only")], 0);
    assert_eq!(app.message, "adopt failed: read-only");
    assert_eq!(app.manager.services.len(), 2);
    app.request_adopt(&no_lookup(500));
    app.confirm_pending(&vec![ok(0)], 0);
    assert_eq!(app.message, "adopted proc500 into dev-panel.toml");
    assert_eq!(app.manager.services[2].cfg.port, Some(4000));
    // the foreign process now holds the port of a configured service
    let foreign = app.rows.iter().find(|r| r.pid == Some(500)).unwrap();
    assert!(matches!(foreign.strategy, Strategy::Configured(2)));
    assert_eq!(app.rows[2].status, "conflict");
}

#[test]
fn a_pending_restart_can_become_an_adoption() {
    let mut app = panel();
    select(&mut app, "proc501");
    app.request_restart(&no_lookup(501));
    assert_eq!((app.lookup_pid(), app.adopt_pid()), (Some(501), None));
    app.table.select(0);
    app.request_adopt(&no_lookup(0));
    match &app.pending {
        Some(Pending::Adopt(cfg)) => {
            assert_eq!(cfg.name, "proc501");
            assert_eq!(cfg.cmd, "/usr/bin/npm run dev");
            assert_eq!(cfg.port, Some(4001));
        }
        _ => panic!("expected an adoption"),
    }
    app.on_key(Key::Esc);
    app.request_adopt(&no_lookup(0));
    assert_eq!(app.message, "a adopts external processes only");
}

#[test]
fn texts_that_cannot_be_quoted_are_not_adopted() {
    assert!(is_quotable(&"'".repeat(255)) && !is_quotable(&"'".repeat(256)));
    assert!(is_quotable(&"\"".repeat(255)) && !is_quotable(&format!("a{}b", "\"".repeat(300))));
    assert!(is_quotable(&"'\"".repeat(500)) && is_quotable(""));
    let mut cfg = config("x", None);
    cfg.cmd = format!("echo {}", "'".repeat(255));
    assert!(is_config_quotable(&cfg));
    let table: toml::Table = service_block(&cfg).parse().unwrap();
    assert_eq!(table["service"][0]["cmd"].as_str(), Some(cfg.cmd.as_str()));
    cfg.cwd = Some("\"".repeat(256));
    assert!(!is_config_quotable(&cfg));

    let mut app = panel();
    select(&mut app, "proc500");
    app.system[1].cmd = vec!["echo".into(), "'".repeat(256)];
    app.request_adopt(&no_lookup(500));
    assert!(app.pending.is_none());
    assert_eq!(app.message, "too many quotes in a row; can't adopt");
}

#[test]
fn blocks_can_be_read_back() {
    let cfg = ServiceConfig {
        name: "a \"quoted\" name".into(),
        cmd: "echo 'x'\nand C:\\more".into(),
        cwd: None,
        port: None,
        health_url: None,
        auto_restart: false,
    };
    let text = service_block(&cfg);
    let table: toml::Table = text.parse().unwrap();
    let service = &table["service"][0];
    assert_eq!(service["name"].as_str(), Some(cfg.name.as_str()));
    assert_eq!(service["cmd"].as_str(), Some(cfg.cmd.as_str()));
    assert!(service.get("cwd").is_none() && service.get("port").is_none());
    assert_eq!(
        block("N", "C", &Some("D".into()), Some(80)),
        "\n[[service]]\nname = N\ncmd = C\ncwd = D\nport = 80\n"
    );
}

// ------------------------------------------------------------------ quick actions

#[test]
fn ports_are_opened_and_copied() {
    let mut app = panel();
    select(&mut app, "proc500");
    assert_eq!(app.on_key(Key::Char('o')), Step::OpenBrowser);
    assert_eq!(app.browser_url().as_deref(), Some("http://localhost:4000"));
    app.open_browser(&Ok(()));
    assert_eq!(app.message, "opened http://localhost:4000");
    app.open_browser(&Err("no opener".into()));
    assert_eq!(app.message, "open failed: no opener");
    assert_eq!(app.on_key(Key::Char('c')), Step::Copy(false));
    assert_eq!(app.copy_text(false).as_deref(), Some("4000"));
    app.copy(false, &Ok(()));
    assert_eq!(app.message, "copied 4000");
    assert_eq!(app.on_key(Key::Char('C')), Step::Copy(true));
    assert_eq!(app.copy_text(true).as_deref(), Some("500"));
    app.copy(true, &Err("no tool".into()));
    assert_eq!(app.message, "clipboard failed: no tool");
    select(&mut app, "worker");
    assert_eq!(app.browser_url(), None);
    app.open_browser(&Ok(()));
    assert_eq!(app.message, "no port on this row");
    app.copy(false, &Ok(()));
    assert_eq!(app.message, "nothing to copy on this row");
}

#[test]
fn folders_are_opened() {
    let mut app = panel();
    assert_eq!(app.on_key(Key::Char('e')), Step::OpenEditor);
    assert_eq!(app.editor_dir().as_deref(), Some("."));
    app.manager.services[0].cfg.cwd = Some("./web".into());
    assert_eq!(app.editor_dir().as_deref(), Some("./web"));
    app.open_editor(&Ok(()));
    assert_eq!(app.message, "opened ./web");
    app.open_editor(&Err("no code".into()));
    assert_eq!(app.message, "editor failed: no code");
    select(&mut app, "proc500");
    assert_eq!(app.editor_dir().as_deref(), Some("/srv/500"));
    select(&mut app, "pg");
    app.open_editor(&Ok(()));
    assert_eq!(app.message, "no folder known for this row");
}

// ------------------------------------------------------------------ keys and clicks

#[test]
fn keys_edit_the_filter() {
    let mut app = panel();
    app.on_key(Key::Char('/'));
    assert!(app.filter_editing);
    for c in "pgq".chars() {
        assert_eq!(app.on_key(Key::Char(c)), Step::Stay);
    }
    assert_eq!(app.footer(), " /pgq▌  Enter apply · Esc clear");
    app.on_key(Key::Backspace);
    assert_eq!(app.filter, "pg");
    assert_eq!(names(&app), vec!["pg"]);
    app.on_key(Key::Enter);
    assert!(!app.filter_editing);
    assert_eq!(app.title(), " dev-panel — filter: pg ");
    app.on_key(Key::Char('/'));
    app.on_key(Key::Esc);
    assert!(app.filter.is_empty() && !app.filter_editing);
    assert_eq!(app.title(), " dev-panel ");
    app.filter_editing = true;
    app.on_key(Key::Backspace);
    assert!(app.filter.is_empty());
}

#[test]
fn keys_toggle_panes_and_scroll() {
    let mut app = panel();
    let panes = [
        ('l', Pane::Logs),
        ('u', Pane::Usage),
        ('v', Pane::EnvDiff),
        ('d', Pane::Details),
        ('m', Pane::Events),
    ];
    for (c, pane) in panes {
        app.on_key(Key::Char(c));
        assert_eq!(app.pane, Some(pane));
        app.on_key(Key::PageUp);
        assert_eq!(app.log_scroll, 5);
        app.on_key(Key::Char(c));
        assert_eq!(app.pane, None);
        assert_eq!(app.log_scroll, 0);
    }
    app.on_key(Key::PageUp);
    app.log_scroll = 3;
    app.on_key(Key::PageDown);
    assert_eq!(app.log_scroll, 0);
    assert_eq!(app.on_key(Key::Char('q')), Step::Quit);
    assert_eq!(app.on_key(Key::Other), Step::Stay);
    assert_eq!(app.on_key(Key::Char('x')), Step::Stay);
    app.toggle_pane(Pane::Usage);
    assert_eq!(app.pane, Some(Pane::Usage));
}

#[test]
fn clicks_select_and_restart() {
    let mut app = panel();
    app.table_area = Rect { x: 10, y: 5, width: 100, height: 10 };
    let click = |column: u16, row: u16| MouseEvent { left_down: true, column, row };
    assert_eq!(app.on_mouse(click(20, 9)), Step::Stay);
    assert_eq!(app.table.selected, Some(2));
    // border, header, outside, below the rows, other buttons
    for (c, r) in [(20, 5), (20, 6), (9, 9), (110, 9), (20, 14), (20, 12)] {
        assert_eq!(app.on_mouse(click(c, r)), Step::Stay);
        assert_eq!(app.table.selected, Some(2));
    }
    let other = MouseEvent { left_down: false, column: 20, row: 8 };
    assert_eq!(app.on_mouse(other), Step::Stay);
    assert_eq!(app.table.selected, Some(2));
    // the restart column: twelve columns before the border
    assert_eq!(app.on_mouse(click(96, 8)), Step::Stay);
    assert_eq!(app.table.selected, Some(1));
    assert_eq!(app.on_mouse(click(97, 7)), Step::RequestRestart);
    assert_eq!(app.table.selected, Some(0));
    app.table.offset = 3;
    assert_eq!(app.on_mouse(click(20, 8)), Step::Stay);
    assert_eq!(app.table.selected, Some(4));
}

// ------------------------------------------------------------------ drawing

#[test]
fn rows_have_cells() {
    let app = panel();
    assert_eq!(header(), vec!["PORT", "PID", "NAME", "STATUS", "USER", "COMMAND", "RESTART"]);
    assert_eq!(header().len(), row_cells(&app.rows[0]).len());
    let longest = Row { strategy: Strategy::Configured(0), ..app.rows[0].clone() };
    assert_eq!(row_cells(&longest)[6], "↻ configured");
    assert!(row_cells(&longest)[6].chars().count() <= usize::from(RESTART_COL_WIDTH));
    assert_eq!(
        row_cells(&app.rows[2]),
        vec!["4000", "500", "[ext] proc500", "listen", "dev", "node server.js", "↻ naive"]
    );
    assert_eq!(
        row_cells(&app.rows[1]),
        vec!["-", "-", "[svc] worker", "stopped", "-", "run worker", "↻ managed"]
    );
    let bare = Row {
        kind: RowKind::Container { id: "x".into() },
        port: None,
        pid: None,
        name: "n".into(),
        status: "s".into(),
        user: "docker".into(),
        cmd: String::new(),
        strategy: Strategy::Docker,
    };
    assert_eq!(row_cells(&bare), vec!["-", "-", "[docker] n", "s", "docker", "-", "↻ docker"]);
}

#[test]
fn tables_are_drawn() {
    let mut app = panel();
    let area = Rect { x: 1, y: 2, width: 90, height: 20 };
    let pane = app.draw_table(area);
    assert_eq!(app.table_area, area);
    assert_eq!(pane.title, " dev-panel ");
    assert_eq!(pane.header, header());
    assert_eq!(pane.rows.len(), 5);
    let tones: Vec<Tone> = pane.rows[2].iter().map(|c| c.tone).collect();
    let plain = Tone::Plain;
    assert_eq!(tones, vec![plain, plain, plain, Tone::Good, plain, plain, Tone::Accent]);
    assert_eq!(pane.rows[2][2].text, "[ext] proc500");
    assert_eq!(coloured_cells(&app.rows[0])[3].tone, Tone::Dim);
    assert_eq!(
        column_widths(),
        vec![
            Extent::Exactly(6),
            Extent::Exactly(8),
            Extent::Exactly(20),
            Extent::Exactly(12),
            Extent::Exactly(10),
            Extent::AtLeast(20),
            Extent::Exactly(12),
        ]
    );
    assert_eq!(app.sections(), vec![Extent::AtLeast(8), Extent::Exactly(1)]);
    app.pane = Some(Pane::Usage);
    assert_eq!(
        app.sections(),
        vec![Extent::AtLeast(8), Extent::Exactly(12), Extent::Exactly(1)]
    );
}

fn text_pane(p: Option<PaneContent>) -> TextPane {
    match p {
        Some(PaneContent::Text(t)) => t,
        _ => panic!("expected a pane of text"),
    }
}

#[test]
fn panes_are_drawn() {
    let mut app = panel();
    let l = no_lookup(0);
    let ours = Vec::new();
    assert!(app.draw_pane(12, &l, &ours).is_none());
    app.pane = Some(Pane::Logs);
    assert_eq!(text_pane(app.draw_pane(12, &l, &ours)).title, " logs: web (0 lines) ");
    app.pane = Some(Pane::Events);
    assert_eq!(text_pane(app.draw_pane(12, &l, &ours)).title, " events (0) ");
    app.pane = Some(Pane::EnvDiff);
    assert_eq!(text_pane(app.draw_pane(12, &l, &ours)).title, " env diff (v proc vs shell) ");
    app.pane = Some(Pane::Details);
    let details = text_pane(app.draw_pane(12, &l, &ours));
    assert_eq!(details.lines, vec!["web: no pid (container or unresolved)"]);
    app.pane = Some(Pane::Usage);
    let usage = text_pane(app.draw_pane(12, &l, &ours));
    assert_eq!((usage.title.as_str(), usage.lines[0].as_str()), (" usage ", "select a row with a pid"));
    select(&mut app, "proc500");
    match app.draw_pane(12, &l, &ours) {
        Some(PaneContent::Spark { title, samples }) => {
            assert_eq!(title, " proc500 — cpu 12%  mem 5 MB — cpu% last 2s ");
            assert_eq!(samples, vec![12]);
        }
        _ => panic!("expected a sparkline"),
    }
}

#[test]
fn modals_are_drawn() {
    let mut app = panel();
    let screen = Rect { x: 0, y: 0, width: 100, height: 31 };
    assert!(app.draw_modal(screen).is_none());
    select(&mut app, "proc500");
    app.request_kill();
    let modal = app.draw_modal(screen).unwrap();
    assert_eq!(modal.area, Rect { x: 20, y: 14, width: 60, height: 3 });
    assert_eq!(modal.lines, vec!["Kill 500 (proc500)?  y = confirm, Esc = cancel"]);
    app.request_restart(&no_lookup(500));
    let modal = app.draw_modal(screen).unwrap();
    assert_eq!((modal.area.height, modal.lines.len()), (6, 4));
}

#[test]
fn statuses_have_colours() {
    for s in ["up", "UP", "listen", "Up 2 hours", "up (200)"] {
        assert_eq!(status_style(s), Tone::Good, "{s}");
    }
    assert_eq!(status_style("starting"), Tone::Busy);
    assert_eq!(status_style("Restarting"), Tone::Busy);
    for s in ["down", "crashed", "conflict"] {
        assert_eq!(status_style(s), Tone::Bad);
    }
    assert_eq!(status_style("stopped"), Tone::Dim);
    assert_eq!(status_style("upward"), Tone::Dim);
    assert_eq!(tone_of("UP"), Tone::Dim, "only lowercase is told apart");
}

#[test]
fn log_panes_show_a_window() {
    let mut app = panel();
    for i in 0..10 {
        app.manager.push_log(0, format!("l{i}"));
    }
    let pane = app.draw_logs(5);
    assert_eq!(pane.title, " logs: web (10 lines) ");
    assert_eq!(pane.lines, vec!["l7", "l8", "l9"]);
    app.log_scroll = 2;
    assert_eq!(app.draw_logs(5).lines, vec!["l5", "l6", "l7"]);
    app.log_scroll = 100;
    assert_eq!(app.draw_logs(5).lines, vec!["l0", "l1", "l2"]);
    assert_eq!(app.log_scroll, 7);
    assert_eq!(app.draw_logs(100).lines.len(), 10);
    assert_eq!(app.log_scroll, 0);
    assert!(app.draw_logs(1).lines.is_empty());
    select(&mut app, "pg");
    let pane = app.draw_logs(5);
    assert_eq!(pane.title, " logs (PgUp/PgDn scroll) ");
    assert_eq!(pane.lines, vec!["logs are captured for managed services only"]);
}

#[test]
fn events_are_kept() {
    let mut app = panel();
    for i in 0..EVENT_CAP + 3 {
        app.say(format!("e{i}"));
    }
    assert_eq!(app.events.len(), EVENT_CAP);
    assert_eq!(app.message, format!("e{}", EVENT_CAP + 2));
    let pane = app.draw_events(4);
    assert_eq!(pane.title, format!(" events ({EVENT_CAP}) "));
    assert_eq!(pane.lines, vec![format!("e{}", EVENT_CAP + 1), format!("e{}", EVENT_CAP + 2)]);
    app.say_each(&vec!["x".into(), "y".into()]);
    assert_eq!(app.message, "y");
    assert_eq!(app.events[EVENT_CAP - 2], "x");
}

#[test]
fn usage_is_shown() {
    let mut app = panel();
    app.build_rows();
    select(&mut app, "proc500");
    let (hist, title) = app.usage_data().unwrap();
    assert_eq!(hist, vec![12, 12]);
    assert_eq!(title, "proc500 — cpu 12%  mem 5 MB");
    let (_, full) = app.draw_usage().unwrap();
    assert_eq!(full, " proc500 — cpu 12%  mem 5 MB — cpu% last 4s ");
    app.system.clear();
    assert_eq!(app.usage_data().unwrap().1, "proc500");
    select(&mut app, "pg");
    assert!(app.usage_data().is_none() && app.draw_usage().is_none());
}

#[test]
fn details_are_shown() {
    let mut app = panel();
    let mut child = process(502, &["sh"]);
    child.parent = Some(500);
    app.system.push(child);
    select(&mut app, "proc500");
    assert_eq!(
        app.details_lines(&no_lookup(500)),
        vec![
            "name: proc500",
            "pid: 500",
            "cmd: node server.js",
            "cwd: /srv/500",
            "uptime: 1h2m5s",
            "children: 502 (proc502)",
        ]
    );
    assert_eq!(
        app.details_title(),
        " details for selected row: proc500 (pane below table, not inline) "
    );
    app.system[1].cmd.clear();
    app.system[1].cwd = None;
    app.system.pop();
    let l = Lookup { lsof: Some("n/tmp\n".into()), ..no_lookup(500) };
    let lines = app.details_lines(&l);
    assert_eq!(lines[2], "cmd: -");
    assert_eq!(lines[3], "cwd: /tmp");
    assert_eq!(lines[5], "children: none");
    app.system.clear();
    assert_eq!(app.details_lines(&l), vec!["process is gone"]);
    select(&mut app, "pg");
    assert_eq!(app.details_lines(&l), vec!["pg: no pid (container or unresolved)"]);
    app.table.select(99);
    assert_eq!(app.details_lines(&l), vec!["nothing selected"]);
}

#[test]
fn environments_are_shown() {
    let mut app = panel();
    let ours = vec![("A".to_string(), "1".to_string())];
    assert_eq!(app.env_diff_lines(&ours), vec!["select a row with a pid"]);
    select(&mut app, "proc500");
    assert_eq!(app.env_diff_lines(&ours), vec!["no env readable for this process"]);
    app.system[1].environ = vec!["A=1".into()];
    assert_eq!(app.env_diff_lines(&ours), vec!["env matches current shell"]);
    app.system[1].environ = vec!["A=2".into(), "B=3".into()];
    assert_eq!(app.env_diff_lines(&ours), vec!["+ B=3", "~ A: proc=2 shell=1"]);
    app.system.clear();
    assert_eq!(app.env_diff_lines(&ours), vec!["process is gone"]);
}

#[test]
fn durations() {
    assert_eq!(format_duration(0), "0s");
    assert_eq!(format_duration(59), "59s");
    assert_eq!(format_duration(60), "1m0s");
    assert_eq!(format_duration(3_600), "1h0m0s");
    assert_eq!(format_duration(100_000), "27h46m40s");
}

#[test]
fn modals_are_centred() {
    let area = Rect { x: 0, y: 0, width: 100, height: 31 };
    assert_eq!(centered(area, 60, 3), Rect { x: 20, y: 14, width: 60, height: 3 });
    let small = Rect { x: 4, y: 2, width: 10, height: 2 };
    assert_eq!(centered(small, 60, 3), small);
}

#[test]
fn footers_show_the_message() {
    let mut app = panel();
    app.say("hello".into());
    assert_eq!(
        app.footer(),
        " hello  |  k kill  r/click↻ restart  s/S start  l logs  d details (below)  u cpu  v env  o open  c/C copy  e edit  / filter  q quit"
    );
    assert!(app.modal_lines().is_none());
    assert!(app.preview_pending().is_empty());
    assert_eq!(app.manager.services[0].status, Status::Stopped);
}
