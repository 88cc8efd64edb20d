use vpncbar::backend::openconnect::{self, parse_options};
use vpncbar::backend::vpnc;
use vpncbar::backend::{
    command_line, connect, disconnect, disconnect_result, script_env_prefix, script_invocation,
    ActionResult, Route,
};
use vpncbar::config_import::parse_config_file;
use vpncbar::model::Profile;
use vpncbar::sys::{Host, Output};
use vpncbar::tunnel::{connected_tunnels, owner_of, Process, Tunnels};

fn output(status: i32, out: &str, err: &str) -> Output {
    Output { status, out: out.to_string(), err: err.to_string() }
}

fn host() -> Host {
    Host {
        config: "/c/vpncbar".to_string(),
        script: None,
        script_installed: true,
        helper_installed: false,
        openconnect: true,
        openconnect_local: false,
    }
}

fn office() -> Profile {
    Profile {
        uuid: Some("00010203-0405-4607-b809-0a0b0c0d0e0f".into()),
        name: "Office".into(),
        gateway: "vpn.example.com".into(),
        id: "grp".into(),
        username: "ACME\\alice".into(),
        ..Default::default()
    }
}

fn anyconnect() -> Profile {
    Profile { kind: Some("openconnect".into()), ..office() }
}

fn message(r: &ActionResult) -> Option<&str> {
    match r {
        ActionResult::Done => None,
        ActionResult::Message(m) => Some(m),
    }
}

#[test]
fn env_prefix_normalizes_domains() {
    let mut p = Profile {
        uuid: Some("abc".into()),
        dns_match_domains: Some("corp.local, example.com".into()),
        ..Default::default()
    };
    assert_eq!(
        script_env_prefix(&p),
        "VPNPID='abc' VPNC_MATCH_DOMAINS='corp.local example.com'"
    );
    p.dns_match_domains = None;
    assert_eq!(script_env_prefix(&p), "VPNPID='abc'");
}

#[test]
fn env_prefix_drops_what_a_shell_would_read() {
    let p = Profile {
        uuid: Some("abc".into()),
        dns_match_domains: Some("  a.b,,c_d-e; '$(x)'\tf\u{a0}ö ".into()),
        ..Default::default()
    };
    assert_eq!(script_env_prefix(&p), "VPNPID='abc' VPNC_MATCH_DOMAINS='a.b c_d-e xfö'");
    let q = Profile { dns_match_domains: Some(" ,;' ".into()), ..p };
    assert_eq!(script_env_prefix(&q), "VPNPID='abc'");
    assert_eq!(script_invocation(&host(), &q), "VPNPID='abc' /usr/lib/vpncbar/vpncbar-script");
}

#[test]
fn connecting_goes_by_the_kind_and_never_twice() {
    let none = Tunnels::new();
    assert!(matches!(connect(&office(), &none), Route::Vpnc));
    assert!(matches!(connect(&anyconnect(), &none), Route::Openconnect));
    let mut live = Tunnels::new();
    live.insert("Office".to_string(), (7, 1));
    assert!(matches!(connect(&office(), &live), Route::Up));
}

#[test]
fn vpnc_config_holds_the_directives_in_order() {
    let mut p = office();
    p.pfs = Some(" dh5 ".into());
    p.nat_mode = Some("  ".into());
    p.debug = Some("2".into());
    p.weak_auth = Some(true);
    p.extra = Some(vec!["Local Port 0".into()]);
    let c = vpnc::build_config(&host(), &p, "1.2.3.4", Some("s3cret"), Some("pw")).unwrap();
    assert_eq!(
        c,
        "IPSec gateway 1.2.3.4\nIPSec ID grp\nIKE Authmode psk\nXauth username alice\n\
         IPSec secret s3cret\nDomain ACME\nXauth password pw\nPerfect Forward Secrecy dh5\n\
         Debug 2\nEnable weak encryption\nEnable weak authentication\n\
         Script VPNPID='00010203-0405-4607-b809-0a0b0c0d0e0f' /usr/lib/vpncbar/vpncbar-script\n\
         Local Port 0\n"
    );
}

#[test]
fn vpnc_config_with_every_option() {
    let mut p = office();
    p.username = "bob".into();
    p.domain = Some("LEGACY".into());
    p.authmode = Some("hybrid".into());
    p.ca_file = Some("/ca.pem".into());
    p.dh_group = Some("dh2".into());
    p.nat_mode = Some("natt".into());
    p.vendor = Some("cisco".into());
    p.mtu = Some("1300".into());
    p.dpd_timeout = Some("30".into());
    p.enable_weak = Some(false);
    p.single_des = Some(true);
    p.no_encryption = Some(true);
    assert!(!vpnc::needs_secret(&p));
    let c = vpnc::build_config(&host(), &p, "gw", None, None).unwrap();
    assert_eq!(
        c,
        "IPSec gateway gw\nIPSec ID grp\nIKE Authmode hybrid\nXauth username bob\n\
         CA-File /ca.pem\nDomain LEGACY\nIKE DH Group dh2\nNAT Traversal Mode natt\n\
         Vendor cisco\nInterface MTU 1300\nDPD idle timeout (our side) 30\nEnable Single DES\n\
         Enable no encryption\n\
         Script VPNPID='00010203-0405-4607-b809-0a0b0c0d0e0f' /usr/lib/vpncbar/vpncbar-script\n"
    );
}

#[test]
fn vpnc_config_says_what_is_missing() {
    let mut p = office();
    assert!(vpnc::needs_secret(&p));
    let e = vpnc::build_config(&host(), &p, "gw", None, Some("pw")).unwrap_err();
    assert_eq!(
        message(&e),
        Some("Group secret not found for “Office”.\nOpen the profile editor and set it.")
    );
    p.authmode = Some("cert".into());
    p.ca_file = Some(" ".into());
    let e = vpnc::build_config(&host(), &p, "gw", Some("s"), None).unwrap_err();
    assert_eq!(
        message(&e),
        Some("cert auth needs a CA file.\nOpen the profile editor and set it.")
    );
}

#[test]
fn vpnc_reads_its_config_and_shows_none_of_it() {
    let l = vpnc::connect(&host(), &office(), "secret stuff".to_string());
    assert_eq!(l.command.program, "/usr/bin/pkexec");
    assert_eq!(
        l.command.args,
        [
            "/usr/bin/vpnc",
            "--non-inter",
            "--pid-file",
            "/c/vpncbar/run/00010203-0405-4607-b809-0a0b0c0d0e0f-Office.pid",
            "-",
        ]
    );
    assert_eq!(l.command.stdin.as_deref(), Some("secret stuff"));
    assert_eq!(l.log, "run/00010203-0405-4607-b809-0a0b0c0d0e0f_Office.boot.log");
}

#[test]
fn vpnc_results() {
    assert_eq!(message(&vpnc::connect_result(&output(0, "", ""))), None);
    assert_eq!(
        message(&vpnc::connect_result(&output(126, "x", ""))),
        Some("Authorization was cancelled.")
    );
    assert_eq!(
        message(&vpnc::connect_result(&output(1, "  no response \n", ""))),
        Some("vpnc failed (status 1):\nno response")
    );
    assert_eq!(
        message(&vpnc::connect_result(&output(-1, " \n", ""))),
        Some("vpnc failed (status -1):\n \n")
    );
    let long = "x".repeat(700);
    assert_eq!(
        message(&vpnc::connect_result(&output(2, &long, ""))),
        Some(format!("vpnc failed (status 2):\n{}", "x".repeat(600)).as_str())
    );
}

#[test]
fn vpnc_log_is_the_boot_log_and_the_journal() {
    let q = vpnc::journal_log(42, None);
    assert_eq!(q.program, "/usr/bin/journalctl");
    assert_eq!(q.args, ["-t", "vpnc", "_PID=42", "-o", "cat", "--no-pager", "-n", "2000"]);
    assert_eq!(vpnc::journal_log(42, Some(99)).args[8], "--since=@99");
    assert_eq!(
        vpnc::session_log(&output(0, "journal\n", ""), "boot\n\n").as_deref(),
        Ok("boot\njournal\n")
    );
    assert_eq!(vpnc::session_log(&output(0, "journal\n", ""), " \n").as_deref(), Ok("journal\n"));
    assert_eq!(vpnc::session_log(&output(1, "journal", ""), "boot"), Err(()));
}

#[test]
fn openconnect_arguments() {
    let mut p = anyconnect();
    assert_eq!(
        openconnect::build_args(&host(), &p),
        [
            "/usr/bin/openconnect",
            "--background",
            "--pid-file",
            "/c/vpncbar/run/00010203-0405-4607-b809-0a0b0c0d0e0f-Office.pid",
            "--script",
            "VPNPID='00010203-0405-4607-b809-0a0b0c0d0e0f' /usr/lib/vpncbar/vpncbar-script",
            "--protocol=anyconnect",
            "--passwd-on-stdin",
            "--user=alice",
            "-v",
            "vpn.example.com",
        ]
    );
    p.oc_protocol = Some("gp".into());
    p.oc_debug = Some("99".into());
    p.oc_no_dtls = Some(true);
    p.oc_dpd = Some("30".into());
    p.oc_mtu = Some("1300".into());
    p.oc_reconnect = Some("60".into());
    p.oc_authgroup = Some("Eng".into());
    p.oc_server_cert = Some("pin-sha256:x".into());
    p.client_cert = Some("/c.pem".into());
    assert_eq!(
        openconnect::build_args(&host(), &p)[6..],
        [
            "--protocol=gp", "--passwd-on-stdin", "--user=alice", "-vvv", "--dump-http-traffic",
            "--no-dtls", "--dpd", "30", "--mtu", "1300", "--reconnect-timeout", "60",
            "--authgroup=Eng", "--servercert=pin-sha256:x", "--certificate=/c.pem",
            "vpn.example.com",
        ]
    );
    for (level, flags) in [("0", vec![]), ("2", vec!["-vv"]), ("3", vec!["-vvv"]), ("9", vec![])] {
        let q = Profile { oc_debug: Some(level.into()), ..anyconnect() };
        let args = openconnect::build_args(&host(), &q);
        assert_eq!(args[9..args.len() - 1], flags);
    }
}

#[test]
fn openconnect_reads_the_password_and_the_code() {
    let l = openconnect::connect(&host(), &anyconnect(), Some("pw"), Some(" 123456 ")).unwrap();
    assert_eq!(l.command.program, "/usr/bin/pkexec");
    assert_eq!(l.command.args, openconnect::build_args(&host(), &anyconnect()));
    assert_eq!(l.command.stdin.as_deref(), Some("pw\n123456\n"));
    assert_eq!(l.log, "run/00010203-0405-4607-b809-0a0b0c0d0e0f_Office.log");
    let l = openconnect::connect(&host(), &anyconnect(), None, Some(" ")).unwrap();
    assert_eq!(l.command.stdin.as_deref(), Some("\n"));
    let mut h = host();
    h.openconnect = false;
    let e = openconnect::connect(&h, &anyconnect(), None, None).unwrap_err();
    assert_eq!(
        message(&e),
        Some(
            "openconnect isn't installed.\nInstall it with your package manager \
             (e.g. pacman -S openconnect)."
        )
    );
}

#[test]
fn openconnect_results() {
    assert_eq!(message(&openconnect::connect_result(&output(0, "x", ""))), None);
    assert_eq!(
        message(&openconnect::connect_result(&output(2, " out ", "err\n"))),
        Some("openconnect failed (status 2):\nout err")
    );
    let long = format!("{} \n", "x".repeat(700));
    assert_eq!(
        message(&openconnect::connect_result(&output(2, &long, ""))),
        Some(format!("openconnect failed (status 2):\n{}", "x".repeat(600)).as_str())
    );
    assert_eq!(
        message(&openconnect::connect_result(&output(1, "", "Not authorized"))),
        Some("Authorization was cancelled.")
    );
}

#[test]
fn groups_are_read_from_the_form() {
    let form = "junk <OPTION value=\"a\" second-auth=\"1\"> Eng </Option>\n\
                <option>Staff</option><option value='x'> </option>\
                <option Second-Auth=\"1\">Staff</option> <option>open";
    let tags = parse_options(form);
    let read: Vec<(&str, &str)> =
        tags.iter().map(|t| (t.attrs.as_str(), t.label.as_str())).collect();
    assert_eq!(
        read,
        [
            (" value=\"a\" second-auth=\"1\"", "Eng"),
            ("", "Staff"),
            (" value='x'", ""),
            (" Second-Auth=\"1\"", "Staff"),
        ]
    );
    assert_eq!(
        openconnect::group_list(&output(1, "", form)),
        [("Eng".to_string(), true), ("Staff".to_string(), false)]
    );
    assert!(openconnect::group_list(&output(1, "", "")).is_empty());
}

#[test]
fn an_option_that_is_not_closed_runs_to_the_next_closing_tag() {
    let tags = parse_options("<option a>one <option b>two</option>");
    assert_eq!(tags.len(), 1);
    assert_eq!(tags[0].label, "one <option b>two");
}

#[test]
fn group_probe_needs_a_server_and_a_program() {
    let c = openconnect::group_probe(&host(), "srv", Some(" pin ")).unwrap();
    assert_eq!(c.program, "/usr/bin/openconnect");
    assert_eq!(
        c.args,
        [
            "--protocol=anyconnect", "--cookieonly", "--dump-http-traffic", "--user=probe",
            "--passwd-on-stdin", "--servercert=pin", "srv",
        ]
    );
    assert_eq!(c.stdin.as_deref(), Some("x\ny\n"));
    assert!(openconnect::group_probe(&host(), "", None).is_none());
    let mut h = host();
    h.openconnect = false;
    assert!(openconnect::group_probe(&h, "srv", None).is_none());
}

#[test]
fn shown_commands() {
    assert_eq!(
        command_line(&host(), &office()),
        "/usr/bin/pkexec /usr/bin/vpnc --non-inter --pid-file \
         /c/vpncbar/run/00010203-0405-4607-b809-0a0b0c0d0e0f-Office.pid -"
    );
    assert_eq!(
        command_line(&host(), &anyconnect()),
        format!("/usr/bin/pkexec {}", openconnect::build_args(&host(), &anyconnect()).join(" "))
    );
}

#[test]
fn disconnecting_goes_through_the_helper_where_it_is_installed() {
    let mut live = Tunnels::new();
    assert!(disconnect(&host(), &office(), &live).is_none());
    live.insert("Office".to_string(), (4321, 60));
    let c = disconnect(&host(), &office(), &live).unwrap();
    assert_eq!(c.args, ["/usr/bin/kill", "-TERM", "4321"]);
    let mut h = host();
    h.helper_installed = true;
    let c = disconnect(&h, &office(), &live).unwrap();
    assert_eq!(c.args, ["/usr/lib/vpncbar/vpncbar-disconnect", "4321"]);
}

#[test]
fn disconnect_results() {
    assert_eq!(message(&disconnect_result(&output(0, "", ""))), None);
    assert_eq!(
        message(&disconnect_result(&output(1, "", "dismissed"))),
        Some("Authorization was cancelled.")
    );
    assert_eq!(
        message(&disconnect_result(&output(3, "out", ""))),
        Some("disconnect failed (status 3):\nout")
    );
    assert_eq!(
        message(&disconnect_result(&output(3, "out", "err"))),
        Some("disconnect failed (status 3):\nerr")
    );
}

#[test]
fn launched_processes_are_recognised() {
    let other = Profile {
        uuid: Some("10010203-0405-4607-b809-0a0b0c0d0e0f".into()),
        name: "Office".into(),
        ..Default::default()
    };
    let profiles = vec![other, office(), anyconnect()];
    let vpnc = vpnc::connect(&host(), &profiles[1], String::new());
    assert_eq!(owner_of(&profiles, &vpnc.command.args), Some(1));
    let two = vec![profiles[0].clone(), profiles[2].clone()];
    let oc = openconnect::connect(&host(), &two[1], None, None).unwrap();
    assert_eq!(owner_of(&two, &oc.command.args), Some(1));
}

#[test]
fn written_configs_read_back() {
    let c = vpnc::build_config(&host(), &office(), "1.2.3.4", Some(" s3cret"), Some("pw ")).unwrap();
    let read = parse_config_file("/x/Office.conf", &c).unwrap().unseal(None, None);
    assert_eq!(read.profile.name, "office");
    assert_eq!(read.profile.gateway, "1.2.3.4");
    assert_eq!(read.profile.id, "grp");
    assert_eq!(read.profile.username, "alice");
    assert_eq!(read.secret.as_deref(), Some("s3cret"));
    assert_eq!(read.password.as_deref(), Some("pw"));
}

#[test]
fn no_second_daemon_is_launched() {
    let l = vpnc::connect(&host(), &office(), String::new());
    let running = Process { pid: 7, argv: l.command.args, elapsed: Some(1) };
    let live = connected_tunnels(&vec![office()], &vec![running], &vec![None]);
    assert!(matches!(connect(&office(), &live), Route::Up));
    // The uuid may be of any length.
    let mut short = office();
    short.uuid = Some("u".into());
    let l = vpnc::connect(&host(), &short, String::new());
    let running = Process { pid: 7, argv: l.command.args, elapsed: Some(1) };
    let live = connected_tunnels(&vec![short.clone()], &vec![running], &vec![None]);
    assert!(matches!(connect(&short, &live), Route::Up));
}
