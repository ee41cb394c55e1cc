use dev_panel::docker::{first_host_port, list, list_args, parse_ps, restart, stop, Container};
use dev_panel::env::{env_diff, parse_environ};
use dev_panel::health::{http_healthy, http_request, parse_health_url};
use dev_panel::platform::{
    clipboard_tool, copy_clipboard, launchctl_restart, launchd_label, lsof_cwd, lsof_cwd_args,
    open_external, open_in_editor, parse_cgroup_unit, ps_args, ps_cmdline, run_ok, shell,
    systemctl_restart, systemd_unit, taskkill_args, Os, Output, PipeReply,
};
use dev_panel::ports::{
    listening_ports, parse_lsof, parse_netstat, parse_proc_net_tcp, proc_pid, socket_inode, FdLink,
    PortEntry,
};

fn pair(k: &str, v: &str) -> (String, String) {
    (k.to_string(), v.to_string())
}

// ------------------------------------------------------------------ environments

#[test]
fn env_diff_flags_changed_added_missing() {
    let proc_env = vec![pair("PATH", "/old"), pair("SAME", "x"), pair("EXTRA", "1")];
    let ours = vec![pair("PATH", "/new"), pair("SAME", "x"), pair("NEW_VAR", "y")];
    let diff = env_diff(&proc_env, &ours);
    assert_eq!(
        diff,
        vec![
            "+ EXTRA=1".to_string(),
            "- NEW_VAR (not inherited)".to_string(),
            "~ PATH: proc=/old shell=/new".to_string(),
        ]
    );
}

#[test]
fn equal_environments_have_no_difference() {
    let env = vec![pair("A", "1"), pair("B", "2")];
    let other = vec![pair("B", "2"), pair("A", "1")];
    assert!(env_diff(&env, &other).is_empty());
}

#[test]
fn differences_are_sorted_and_told_once() {
    let ours = vec![pair("Z", "1"), pair("A", "2"), pair("Z", "3")];
    assert_eq!(
        env_diff(&Vec::new(), &ours),
        vec!["- A (not inherited)".to_string(), "- Z (not inherited)".to_string()]
    );
    // the last of two values counts
    assert_eq!(
        env_diff(&vec![pair("Z", "1"), pair("A", "2")], &ours),
        vec!["~ Z: proc=1 shell=3".to_string()]
    );
}

#[test]
fn environments_are_cut_at_the_first_equals_sign() {
    let environ = vec!["A=1=2".to_string(), "no sign".to_string(), "B=".to_string()];
    assert_eq!(parse_environ(&environ), vec![pair("A", "1=2"), pair("B", "")]);
}

// ------------------------------------------------------------------ docker

#[test]
fn parses_docker_ps_and_host_port() {
    let fixture = "abc123\tpg\tpostgres:16\t0.0.0.0:5432->5432/tcp, [::]:5432->5432/tcp\tUp 2 hours\n\
                   def456\tredis\tredis:7\t\tUp 5 minutes\n";
    let got = parse_ps(fixture);
    assert_eq!(got.len(), 2);
    assert_eq!(got[0].name, "pg");
    assert_eq!(got[0].host_port(), Some(5432));
    assert_eq!(got[1].host_port(), None, "no published ports");
}

#[test]
fn short_docker_lines_are_skipped() {
    assert!(parse_ps("one\ttwo\tthree\tfour\n\n").is_empty());
    let got = parse_ps("i\tn\tim\tp\ts\textra");
    assert_eq!(got.len(), 1);
    assert_eq!(
        (got[0].id.as_str(), got[0].image.as_str(), got[0].status.as_str()),
        ("i", "im", "s")
    );
}

#[test]
fn host_ports_need_a_number() {
    assert_eq!(first_host_port("8080"), Some(8080));
    assert_eq!(first_host_port("0.0.0.0:70000->80/tcp"), None);
    assert_eq!(first_host_port("80/tcp"), None);
    // the first of a published range; a range that is only exposed has none
    assert_eq!(first_host_port("0.0.0.0:8000-8001->8000-8001/tcp"), Some(8000));
    assert_eq!(
        first_host_port("0.0.0.0:9000-9002->80-82/tcp, [::]:9000-9002->80-82/tcp"),
        Some(9000)
    );
    assert_eq!(first_host_port("5000-5001/tcp, 0.0.0.0:8443->443/tcp"), Some(8443));
    assert_eq!(first_host_port("5000-5001/tcp"), None);
    assert_eq!(first_host_port("0.0.0.0:-8001->8000/tcp"), None);
    // what is no range of port numbers is no port
    for s in ["h:80-x->80", "h:80-->80", "h:80-81-82->80", "h:80-70000->80", "h:x-81->80"] {
        assert_eq!(first_host_port(s), None, "{s}");
    }
    let c = Container {
        id: "i".into(),
        name: "n".into(),
        image: "m".into(),
        ports: "[::]:9000->9000/tcp".into(),
        status: "Up".into(),
    };
    assert_eq!(c.host_port(), Some(9000));
}

#[test]
fn docker_commands() {
    assert_eq!(
        list_args(),
        vec!["ps", "--format", "{{.ID}}\t{{.Names}}\t{{.Image}}\t{{.Ports}}\t{{.Status}}"]
    );
    assert_eq!(stop("abc"), vec!["stop", "-t", "3", "abc"]);
    assert_eq!(restart("abc"), vec!["restart", "-t", "3", "abc"]);
}

#[test]
fn docker_list_reports_failures() {
    let ok = Ok(Output { success: true, stdout: "a\tb\tc\td\te".into(), stderr: String::new() });
    assert_eq!(list(&ok).map(|v| v.len()).ok(), Some(1));
    let bad = Ok(Output { success: false, stdout: String::new(), stderr: " no daemon \n".into() });
    assert_eq!(list(&bad).err().as_deref(), Some("no daemon"));
    let gone: Result<Output, String> = Err("not found".into());
    assert_eq!(list(&gone).err().as_deref(), Some("not found"));
}

// ------------------------------------------------------------------ platforms

#[test]
fn finds_systemd_unit_in_cgroup() {
    let cgroup = "0::/system.slice/myapp.service\n";
    assert_eq!(parse_cgroup_unit(cgroup).as_deref(), Some("myapp.service"));
    let user_scope = "0::/user.slice/user-501.slice/session-3.scope\n";
    assert_eq!(parse_cgroup_unit(user_scope), None);
}

#[test]
fn the_innermost_unit_wins() {
    let nested = "1:name=a:/x\n0::/system.slice/outer.service/inner.service/leaf\n";
    assert_eq!(parse_cgroup_unit(nested).as_deref(), Some("inner.service"));
    let cgroup = Some(nested.to_string());
    assert_eq!(systemd_unit(Os::Linux, &cgroup).as_deref(), Some("inner.service"));
    assert_eq!(systemd_unit(Os::MacOs, &cgroup), None);
    assert_eq!(systemd_unit(Os::Linux, &None), None);
}

#[test]
fn ps_cmdline_none_for_dead_pid() {
    // A pid unlikely to exist; ps prints nothing and we should return None.
    assert_eq!(ps_args(999_999), vec!["-p", "999999", "-o", "command="]);
    assert_eq!(ps_cmdline(&Some(String::new())), None);
}

#[test]
fn ps_output_is_cut_into_words() {
    assert_eq!(
        ps_cmdline(&Some("  node  server.js\t--port 3000\n".into())),
        Some(vec!["node".into(), "server.js".into(), "--port".into(), "3000".into()])
    );
    assert_eq!(ps_cmdline(&Some(" \n".into())), None);
    assert_eq!(ps_cmdline(&None), None);
}

#[test]
fn lsof_names_the_working_directory() {
    assert_eq!(lsof_cwd_args(7), vec!["-a", "-p", "7", "-d", "cwd", "-Fn"]);
    assert_eq!(lsof_cwd(&Some("p7\nfcwd\nn/tmp/x\n".into())).as_deref(), Some("/tmp/x"));
    assert_eq!(lsof_cwd(&Some("p7\nfcwd\n".into())), None);
    assert_eq!(lsof_cwd(&None), None);
}

#[test]
fn shells_and_signals() {
    assert_eq!(shell(Os::Linux, "a | b"), vec!["sh", "-c", "a | b"]);
    assert_eq!(shell(Os::MacOs, "x"), vec!["sh", "-c", "x"]);
    assert_eq!(shell(Os::Windows, "x"), vec!["cmd", "/C", "x"]);
    assert_eq!(taskkill_args(12, false), vec!["/PID", "12"]);
    assert_eq!(taskkill_args(12, true), vec!["/F", "/PID", "12"]);
}

#[test]
fn openers() {
    let url = "http://localhost:3000";
    assert_eq!(open_external(Os::MacOs, url), vec!["open", url]);
    assert_eq!(open_external(Os::Linux, url), vec!["xdg-open", url]);
    assert_eq!(open_external(Os::Windows, url), vec!["cmd", "/C", "start", "", url]);
    let (first, second) = open_in_editor(Os::Linux, "/srv");
    assert_eq!(first, vec!["code", "/srv"]);
    assert_eq!(second, vec!["xdg-open", "/srv"]);
}

#[test]
fn clipboard_tools_are_tried_in_turn() {
    assert_eq!(clipboard_tool(Os::Linux, 0), Some(vec!["wl-copy".to_string()]));
    assert_eq!(
        clipboard_tool(Os::Linux, 1),
        Some(vec!["xclip".to_string(), "-selection".to_string(), "clipboard".to_string()])
    );
    assert_eq!(clipboard_tool(Os::Linux, 2), Some(vec!["xsel".to_string(), "-ib".to_string()]));
    assert_eq!(clipboard_tool(Os::Linux, 3), None);
    assert_eq!(clipboard_tool(Os::MacOs, 0), Some(vec!["pbcopy".to_string()]));
    assert_eq!(clipboard_tool(Os::Windows, 0), Some(vec!["clip".to_string()]));
    assert_eq!(clipboard_tool(Os::Windows, 1), None);

    let missing = PipeReply::NotFound("gone".into());
    assert_eq!(copy_clipboard(Os::Linux, 0, &missing), None);
    assert_eq!(
        copy_clipboard(Os::Linux, 2, &missing),
        Some(Err("no clipboard tool (wl-copy/xclip/xsel)".to_string()))
    );
    assert_eq!(copy_clipboard(Os::MacOs, 0, &missing), Some(Err("gone".to_string())));
    assert_eq!(copy_clipboard(Os::Linux, 1, &PipeReply::Done), Some(Ok(())));
    assert_eq!(
        copy_clipboard(Os::Linux, 0, &PipeReply::NonZero),
        Some(Err("clipboard tool exited non-zero".to_string()))
    );
    assert_eq!(
        copy_clipboard(Os::Linux, 0, &PipeReply::Failed("broken pipe".into())),
        Some(Err("broken pipe".to_string()))
    );
}

#[test]
fn supervisors() {
    assert_eq!(
        systemctl_restart(Os::Linux, "a.service").ok(),
        Some(vec!["systemctl".to_string(), "restart".to_string(), "a.service".to_string()])
    );
    assert_eq!(
        systemctl_restart(Os::MacOs, "a.service").err().as_deref(),
        Some("systemd restart is Linux-only")
    );
    assert_eq!(
        launchctl_restart(Os::MacOs, "com.x").ok(),
        Some(vec![
            "launchctl".to_string(),
            "kickstart".to_string(),
            "-k".to_string(),
            "com.x".to_string()
        ])
    );
    assert_eq!(
        launchctl_restart(Os::Linux, "com.x").err().as_deref(),
        Some("launchd restart is macOS-only")
    );
    let listing = Some("PID\tStatus\tLabel\n-\t0\tcom.idle\n42\t0\tcom.busy\n".to_string());
    assert_eq!(launchd_label(Os::MacOs, &listing, 42).as_deref(), Some("com.busy"));
    assert_eq!(launchd_label(Os::MacOs, &listing, 43), None);
    assert_eq!(launchd_label(Os::Linux, &listing, 42), None);
}

#[test]
fn commands_fail_with_what_they_wrote() {
    let ok = Ok(Output { success: true, stdout: "out".into(), stderr: "noise".into() });
    assert_eq!(run_ok(&ok), Ok("out".to_string()));
    let bad = Ok(Output { success: false, stdout: "out".into(), stderr: "\tdenied \n".into() });
    assert_eq!(run_ok(&bad), Err("denied".to_string()));
    assert_eq!(run_ok(&Err("no such file".into())), Err("no such file".to_string()));
}

// ------------------------------------------------------------------ ports

#[test]
fn parses_lsof_field_output() {
    let fixture = "p512\ncnode\nLdalton\nf23\nn*:3000\nf24\nn*:3000\np777\ncpostgres\nLdalton\nf7\nn127.0.0.1:5432\nn[::1]:5432\nf9\nn*:*\n";
    let entries = parse_lsof(fixture);
    assert_eq!(
        entries.len(),
        2,
        "dedupes v4/v6 twins, skips unparseable ports"
    );
    assert_eq!(
        (entries[0].port, entries[0].pid, entries[0].name.as_str()),
        (3000, 512, "node")
    );
    assert_eq!(
        (entries[1].port, entries[1].pid, entries[1].user.as_str()),
        (5432, 777, "dalton")
    );
}

#[test]
fn dedupes_non_adjacent_duplicate_pid_port() {
    // pid 512 on port 3000, then a different process, then pid 512 on
    // port 3000 again in a separate (non-contiguous) block — adjacent-
    // only dedup would miss this second occurrence.
    let fixture = "p512\ncnode\nLdalton\nf23\nn*:3000\n\
                   p777\ncpostgres\nLdalton\nf7\nn127.0.0.1:5432\n\
                   p512\ncnode\nLdalton\nf25\nn*:3000\n";
    let entries = parse_lsof(fixture);
    assert_eq!(
        entries.len(),
        2,
        "non-adjacent (512, 3000) duplicate must still be caught: {entries:?}"
    );
}

#[test]
fn lsof_entries_are_sorted_by_process() {
    let got = parse_lsof("p9\nn*:80\np3\nca\nn*:90\nn*:70\npx\nn*:60\n");
    let keys: Vec<(i32, u16)> = got.iter().map(|e| (e.pid, e.port)).collect();
    assert_eq!(keys, vec![(0, 60), (3, 70), (3, 90), (9, 80)]);
}

#[test]
fn parses_proc_net_tcp() {
    let fixture = "\
  sl  local_address rem_address   st tx_queue rx_queue tr tm->when retrnsmt   uid  timeout inode
   0: 00000000:0BB8 00000000:0000 0A 00000000:00000000 00:00000000 00000000  1000        0 43217 1 0000000000000000 100 0 0 10 0
   1: 0100007F:1538 00000000:0000 0A 00000000:00000000 00:00000000 00000000  1000        0 51888 1 0000000000000000 100 0 0 10 0
   2: 0100007F:AAAA 0100007F:0BB8 01 00000000:00000000 00:00000000 00000000  1000        0 99999 1 0000000000000000 100 0 0 10 0
";
    let got = parse_proc_net_tcp(fixture);
    assert_eq!(got, vec![(43217, 0x0BB8), (51888, 0x1538)], "LISTEN only");
}

#[test]
fn sockets_are_matched_with_their_holders() {
    assert_eq!(proc_pid("123"), Some(123));
    assert_eq!(proc_pid("self"), None);
    assert_eq!(socket_inode("socket:[77]"), Some(77));
    assert_eq!(socket_inode("socket:[77"), None);
    assert_eq!(socket_inode("pipe:[77]"), None);

    let header = "h\n".to_string();
    let line = |port: &str, inode: &str| {
        format!("0: 00000000:{port} 00000000:0000 0A 0 0 0 0 0 {inode}\n")
    };
    // field ten is the inode
    let table = format!("{header}{}{}", line("0050", "77"), line("0051", "88"));
    assert_eq!(parse_proc_net_tcp(&table), vec![(77, 80), (88, 81)]);
    let links = vec![
        FdLink { pid: 5, target: "socket:[88]".into() },
        FdLink { pid: 4, target: "/dev/null".into() },
        FdLink { pid: 6, target: "socket:[77]".into() },
        FdLink { pid: 6, target: "socket:[99]".into() },
    ];
    let six = format!("{header}{}", line("0050", "99"));
    let got = listening_ports(&vec![table, six], &links);
    let keys: Vec<(u16, i32)> = got.iter().map(|e| (e.port, e.pid)).collect();
    assert_eq!(keys, vec![(80, 6), (81, 5)]);
    assert!(got[0].name.is_empty() && got[0].user.is_empty() && got[0].cmd.is_empty());
}

#[test]
fn parses_netstat_output() {
    let fixture = "\
Active Connections

  Proto  Local Address          Foreign Address        State           PID
  TCP    0.0.0.0:3000           0.0.0.0:0              LISTENING       1084
  TCP    127.0.0.1:5432         0.0.0.0:0              LISTENING       412
  TCP    127.0.0.1:5432         127.0.0.1:9999         ESTABLISHED     412
  UDP    0.0.0.0:5353           *:*                                    77
";
    let got = parse_netstat(fixture);
    assert_eq!(got.len(), 2);
    assert_eq!((got[0].port, got[0].pid), (3000, 1084));
    assert_eq!((got[1].port, got[1].pid), (5432, 412));
}

#[test]
fn empty_port_entries() {
    let e = PortEntry::default();
    assert_eq!((e.port, e.pid, e.name.len(), e.user.len(), e.cmd.len()), (0, 0, 0, 0, 0));
}

// ------------------------------------------------------------------ health

#[test]
fn health_urls() {
    let t = parse_health_url("http://localhost:3000/health").unwrap();
    assert_eq!((t.host.as_str(), t.port, t.path.as_str()), ("localhost", 3000, "/health"));
    let t = parse_health_url("http://example.test").unwrap();
    assert_eq!((t.host.as_str(), t.port, t.path.as_str()), ("example.test", 80, "/"));
    assert!(parse_health_url("https://localhost/health").is_none());
    assert!(parse_health_url("http://localhost:99999/").is_none());
    assert!(parse_health_url("http:///path").is_none());
    assert!(parse_health_url("localhost:3000").is_none());
}

#[test]
fn health_requests_and_answers() {
    let t = parse_health_url("http://localhost:3000/health").unwrap();
    let request = http_request(&t);
    assert!(request.starts_with("GET /health HTTP/1.1\r\nHost: localhost"));
    assert!(request.ends_with("\r\n\r\n"));
    assert!(http_healthy("HTTP/1.1 200 OK\r\n\r\n"));
    assert!(http_healthy("HTTP/1.0 200\r\n"));
    assert!(!http_healthy("HTTP/1.1 503 Service Unavailable\r\n\r\n"));
    assert!(!http_healthy("garbage"));
    assert!(!http_healthy(""));
}
