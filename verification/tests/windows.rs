use vpncbar::app::{Cmd, Prompt};
use vpncbar::config_import::ParsedConfig;
use vpncbar::model::Profile;
use vpncbar::sys::{Host, Output};
use vpncbar::tunnel::{Counters, TunnelInfo, Tunnels};
use vpncbar::ui::about::{autostart_files, backends, uninstall, uninstall_failure, REPO_URL};
use vpncbar::ui::drop_down::{combo, combo_default, IdDropDown};
use vpncbar::ui::editor;
use vpncbar::ui::form::{fill, gather, import, missing_required, save};
use vpncbar::ui::info::{
    clear_log, debug_step, info, is_connected, last_log, rebuilt, reveal_log, reveal_rebuilds,
    settle, LogStep,
};
use vpncbar::ui::otp;
use vpncbar::ui::pages::{advanced_expanded, build_pages, Field};
use vpncbar::ui::window;

fn strings(l: &[&str]) -> Vec<String> {
    l.iter().map(|s| s.to_string()).collect()
}

fn output(status: i32, out: &str, err: &str) -> Output {
    Output { status, out: out.to_string(), err: err.to_string() }
}

fn host() -> Host {
    Host {
        config: "/c".to_string(),
        script: None,
        script_installed: false,
        helper_installed: false,
        openconnect: true,
        openconnect_local: false,
    }
}

fn office() -> Profile {
    Profile {
        uuid: Some("u1".into()),
        name: "Office".into(),
        gateway: "gw".into(),
        id: "grp".into(),
        username: "alice".into(),
        ..Default::default()
    }
}

fn anyconnect() -> Profile {
    Profile { kind: Some("openconnect".into()), ..office() }
}

fn live(pid: u32, secs: u64) -> Tunnels {
    let mut t = Tunnels::new();
    t.insert("Office".to_string(), (pid, secs));
    t
}

#[test]
fn known_ids_are_chosen_and_unknown_ones_are_not() {
    let mut d = combo(strings(&["psk", "hybrid", "cert"]), Some("cert"));
    assert_eq!((d.selected, d.active_id().as_deref()), (2, Some("cert")));
    d.set_active_id(Some("nope"));
    assert_eq!(d.active_id().as_deref(), Some("psk"));
    d.set_active_id(None);
    assert_eq!(d.selected, 0);
    let d = combo_default(&strings(&["dh1", "dh2"]), Some("dh2"));
    assert_eq!(d.ids, ["", "dh1", "dh2"]);
    assert_eq!(d.labels, ["(default)", "dh1", "dh2"]);
    assert_eq!(d.selected, 2);
    assert_eq!(combo_default(&strings(&["dh1"]), Some("")).selected, 0);
    assert_eq!(combo_default(&strings(&["dh1"]), None).active_id().as_deref(), Some(""));
    assert_eq!(IdDropDown::new(vec![], vec![], Some("x")).active_id(), None);
}

#[test]
fn form_shows_defaults() {
    let f = fill(&office(), "sec", "pw");
    assert_eq!((f.name.as_str(), f.secret.as_str(), f.password.as_str()), ("Office", "sec", "pw"));
    assert_eq!(f.authmode.active_id().as_deref(), Some("psk"));
    assert_eq!(f.dh_group.active_id().as_deref(), Some(""));
    assert_eq!(f.debug.active_id().as_deref(), Some("0"));
    assert_eq!(f.oc_debug.active_id().as_deref(), Some("1"));
    assert_eq!(f.oc_protocol.active_id().as_deref(), Some("anyconnect"));
    assert!(f.enable_weak && !f.single_des && !f.no_encryption && !f.weak_auth && !f.oc_otp);
    assert_eq!(f.oc_authgroup, None);
    let dh = ["dh1", "dh2", "dh5", "dh14", "dh15", "dh16", "dh17", "dh18"];
    assert_eq!(f.dh_group.labels, [&["(default)"], &dh[..]].concat());
    assert_eq!(f.dh_group.ids[1..], dh);
    assert_eq!(f.pfs.ids[1..], [&["nopfs"], &dh[..], &["server"]].concat());
    assert_eq!(f.authmode.ids, ["psk", "hybrid", "cert"]);
    assert_eq!(f.authmode.labels, ["psk", "hybrid", "cert"]);
    assert_eq!(f.debug.ids, ["0", "1", "2", "3", "99"]);
    assert_eq!(f.oc_debug.labels, ["0", "1", "2", "3", "99"]);
    assert_eq!(f.nat_mode.ids, ["", "natt", "none", "force-natt", "cisco-udp"]);
    assert_eq!(f.vendor.ids, ["", "cisco", "netscreen", "fortigate"]);
    assert_eq!(f.oc_protocol.ids, ["anyconnect", "gp", "pulse", "f5", "fortinet", "nc", "array"]);
}

#[test]
fn vpnc_profile_from_the_form() {
    let mut old = office();
    old.oc_mtu = Some("kept".into());
    old.extra = Some(vec!["x".into()]);
    let mut f = fill(&old, "", "");
    f.name = " New name ".into();
    f.domains = " a.b ".into();
    f.client_cert = "  ".into();
    f.authmode.set_active_id(Some("hybrid"));
    f.dh_group.set_active_id(Some("dh5"));
    f.mtu = "1300".into();
    f.enable_weak = false;
    f.oc_mtu = "ignored".into();
    let p = gather(&f, &old);
    assert_eq!(p.kind.as_deref(), Some("vpnc"));
    assert_eq!(p.name, "New name");
    assert_eq!(p.dns_match_domains.as_deref(), Some("a.b"));
    assert_eq!(p.client_cert, None);
    assert_eq!(p.authmode.as_deref(), Some("hybrid"));
    assert_eq!(p.dh_group.as_deref(), Some("dh5"));
    assert_eq!(p.pfs, None);
    assert_eq!(p.debug.as_deref(), Some("0"));
    assert_eq!(p.enable_weak, Some(false));
    assert_eq!(p.single_des, Some(false));
    assert_eq!(p.oc_mtu.as_deref(), Some("kept"));
    assert_eq!(p.extra, Some(vec!["x".to_string()]));
    assert_eq!(p.uuid.as_deref(), Some("u1"));
}

#[test]
fn openconnect_profile_from_the_form() {
    let mut old = anyconnect();
    old.authmode = Some("cert".into());
    let mut f = fill(&old, "", "");
    f.id = "ignored".into();
    f.oc_authgroup = Some(" Eng ".into());
    f.oc_otp = true;
    f.oc_reconnect = "60".into();
    f.oc_debug.set_active_id(Some("99"));
    let p = gather(&f, &old);
    assert_eq!(p.kind.as_deref(), Some("openconnect"));
    assert_eq!(p.id, "grp");
    assert_eq!(p.authmode.as_deref(), Some("cert"));
    assert_eq!(p.oc_authgroup.as_deref(), Some("Eng"));
    assert_eq!(p.oc_otp, Some(true));
    assert_eq!(p.oc_no_dtls, Some(false));
    assert_eq!(p.oc_reconnect.as_deref(), Some("60"));
    assert_eq!(p.oc_debug.as_deref(), Some("99"));
}

#[test]
fn what_was_saved_shows_again() {
    for old in [office(), anyconnect()] {
        let mut f = fill(&old, "", "");
        f.name = " x ".into();
        f.pfs.set_active_id(Some("server"));
        f.oc_dpd = " 30".into();
        let once = gather(&f, &old);
        let twice = gather(&fill(&once, "", ""), &once);
        assert_eq!(format!("{once:?}"), format!("{twice:?}"));
    }
}

#[test]
fn missing_entries_are_named() {
    let mut f = fill(&Profile::default(), "", "");
    assert_eq!(
        missing_required(&f, false).as_deref(),
        Some("Name, Gateway, Username, Group name")
    );
    assert_eq!(missing_required(&f, true).as_deref(), Some("Name, Gateway, Username"));
    f.name = "n".into();
    f.gateway = "g".into();
    f.username = " ".into();
    f.id = "i".into();
    assert_eq!(missing_required(&f, false).as_deref(), Some("Username"));
    f.username = "u".into();
    assert_eq!(missing_required(&f, false), None);
}

#[test]
fn saving_keeps_the_profile_and_its_secrets() {
    let mut f = fill(&Profile::default(), "", "");
    let e = save(&f, &Profile::default(), &vec![], [0; 16]).unwrap_err();
    assert_eq!(e, "Please fill in: Name, Gateway, Username, Group name.");
    f.name = "Home".into();
    f.gateway = "g".into();
    f.username = "u".into();
    f.id = "i".into();
    f.password = "pw".into();
    let s = save(&f, &Profile::default(), &vec![office()], [0; 16]).unwrap();
    let names: Vec<&str> = s.list.iter().map(|p| p.name.as_str()).collect();
    assert_eq!(names, ["Home", "Office"]);
    let uuid = "00000000-0000-4000-8000-000000000000";
    assert_eq!(s.profile.uuid.as_deref(), Some(uuid));
    assert_eq!(s.stores.len(), 1);
    assert_eq!(s.stores[0].args[2], format!("vpnc-{uuid}-password"));
    assert_eq!(s.stores[0].args[6], "u");
    assert_eq!(s.stores[0].stdin.as_deref(), Some("pw"));
    f.secret = "sec".into();
    let s = save(&f, &s.profile, &s.list, [1; 16]).unwrap();
    assert_eq!(s.list.len(), 2);
    assert_eq!(s.stores.len(), 2);
    assert_eq!(s.stores[0].args[2], format!("vpnc-{uuid}-secret"));
    assert_eq!(s.stores[0].args[6], "i");
}

#[test]
fn imported_files_are_saved() {
    let parsed = ParsedConfig {
        profile: Profile { name: "n".into(), id: "grp".into(), ..Default::default() },
        secret: Some("s".into()),
        password: None,
    };
    let s = import(parsed, &vec![], [0; 16]);
    assert_eq!(s.list.len(), 1);
    assert_eq!(s.stores.len(), 1);
    assert_eq!(s.stores[0].args[6], "grp");
    assert_eq!(s.stores[0].stdin.as_deref(), Some("s"));
}

#[test]
fn pages_of_both_kinds() {
    let p = build_pages("openconnect");
    let fields = |v: &[vpncbar::ui::pages::Row]| v.iter().map(|r| r.field).collect::<Vec<_>>();
    assert_eq!(
        fields(&p.credentials),
        [
            Field::Name, Field::Gateway, Field::OcAuthgroup, Field::Username, Field::Password,
            Field::Domains, Field::OcOtp,
        ]
    );
    assert_eq!(p.credentials[2].label, Some("Auth group"));
    assert_eq!(p.credentials[6].label, None);
    assert_eq!(fields(&p.advanced), [Field::OcServerCert, Field::ClientCert]);
    assert_eq!(p.options.len(), 6);
    let p = build_pages("vpnc");
    assert_eq!(p.credentials.len(), 11);
    assert_eq!(p.credentials[10].field, Field::AuthNote);
    assert!(p.advanced.is_empty());
    assert_eq!(p.options.len(), 11);
    assert_eq!(p.options[2].label, Some("NAT-T Mode"));
    assert!(advanced_expanded("x", "") && advanced_expanded("", "x"));
    assert!(!advanced_expanded("", ""));
}

#[test]
fn editors_go_by_the_uuid() {
    assert_eq!(editor::editor_key(Some(&office())), "u1");
    assert_eq!(editor::editor_key(Some(&Profile::default())), "__new__");
    assert_eq!(editor::editor_key(None), "__new__");
    assert_eq!(editor::title(Some(&office())), "Edit “Office”");
    assert_eq!(editor::title(None), "New VPN");
    assert_eq!(editor::kind(&office()), "vpnc");
    assert_eq!(editor::kind(&anyconnect()), "openconnect");
}

#[test]
fn credentials_that_apply() {
    let c = editor::apply_authmode(false, Some("psk"), false);
    assert_eq!((c.secret, c.ca_file, c.client_cert, c.note), (true, false, false, None));
    let c = editor::apply_authmode(false, Some("hybrid"), true);
    assert_eq!((c.secret, c.ca_file, c.client_cert, c.note), (false, true, false, None));
    let c = editor::apply_authmode(false, Some("cert"), false);
    assert_eq!((c.secret, c.ca_file, c.client_cert), (false, true, true));
    assert_eq!(
        c.note.as_deref(),
        Some(
            "This vpnc build has no certificate support (not linked against GnuTLS), \
             so “cert” mode won’t take effect. Rebuild vpnc with GnuTLS to use it."
        )
    );
    let c = editor::apply_authmode(true, Some("cert"), false);
    assert_eq!((c.secret, c.ca_file, c.client_cert, c.note), (true, true, true, None));
    assert!(editor::apply_authmode(false, None, false).secret);
    assert!(editor::asks_support(false, Some("cert")));
    assert!(!editor::asks_support(true, Some("cert")));
    assert!(!editor::asks_support(false, Some("psk")));
}

#[test]
fn groups_that_were_found() {
    let groups = vec![("Eng".to_string(), true), ("Staff".to_string(), false)];
    assert_eq!(editor::choose_group(&groups, Some("Staff")).as_deref(), Some("Staff"));
    assert_eq!(editor::choose_group(&groups, Some("gone")).as_deref(), Some("Eng"));
    assert_eq!(editor::choose_group(&groups, None).as_deref(), Some("Eng"));
    assert_eq!(editor::choose_group(&vec![], Some("x")), None);
    assert_eq!(editor::needs_code(&groups, "Eng"), Some(true));
    assert_eq!(editor::needs_code(&groups, "Staff"), Some(false));
    assert_eq!(editor::needs_code(&groups, "x"), None);
}

#[test]
fn what_a_gateway_told() {
    let groups = vec![("Eng".to_string(), true), ("Staff".to_string(), false)];
    assert!(matches!(
        editor::fetched("gw", None, &groups, Some("Staff")),
        editor::Fetched::Show { group: Some(g) } if g == "Staff"
    ));
    assert!(matches!(editor::fetched("gw", None, &vec![], None), editor::Fetched::NoGroups));
    match editor::fetched(" gw ", Some("pin-sha256:x"), &groups, None) {
        editor::Fetched::Trust { pin, question } => {
            assert_eq!(pin, "pin-sha256:x");
            assert_eq!(
                question,
                "The gateway “gw” presented a certificate that isn't trusted \
                 (self-signed, or from a private CA).\n\nFingerprint:\npin-sha256:x\n\n\
                 Trust and pin this certificate? It's saved to the profile and \
                 required on every future connection — you'll be warned if it \
                 ever changes."
            );
        }
        other => panic!("{other:?}"),
    }
}

#[test]
fn button_for_the_connection() {
    assert_eq!(editor::connect_button(&office(), true, ""), ("Disconnect", true));
    assert_eq!(editor::connect_button(&Profile::default(), false, ""), ("Connect", false));
    assert_eq!(editor::connect_button(&Profile::default(), false, "x"), ("Connect", true));
    let (cmd, target) = editor::toggle_connection(&office(), false);
    assert!(matches!(cmd, Cmd::Connect(n) if n == "Office") && target);
    let (cmd, target) = editor::toggle_connection(&office(), true);
    assert!(matches!(cmd, Cmd::Disconnect(n) if n == "Office") && !target);
}

#[test]
fn waiting_for_a_state_ends() {
    assert_eq!(settle(Some((true, 0)), false), Some(true));
    assert_eq!(settle(Some((true, 19)), false), Some(true));
    assert_eq!(settle(Some((true, 20)), false), None);
    assert_eq!(settle(Some((true, 0)), true), None);
    assert_eq!(settle(Some((false, 3)), true), Some(false));
    assert_eq!(settle(None, true), None);
}

#[test]
fn information_without_a_tunnel() {
    let t = TunnelInfo::default();
    assert_eq!(
        info(&host(), &office(), None, None, &t, None),
        "Status:        Not connected\n\nCommand:\n\
         /usr/bin/pkexec /usr/bin/vpnc --non-inter --pid-file /c/run/u1-Office.pid -\n"
    );
    assert_eq!(
        info(&host(), &office(), None, Some(true), &t, None).lines().next(),
        Some("Status:        Connecting…")
    );
    let new = Profile { uuid: None, ..office() };
    assert!(!is_connected(&new, &live(7, 1)) && is_connected(&office(), &live(7, 1)));
    let s = info(&host(), &new, Some((7, 1)), None, &t, None);
    assert!(s.starts_with("Status:        Not connected\n\nCommand (PID 7):\n"));
}

#[test]
fn information_on_a_tunnel() {
    let t = TunnelInfo {
        iface: Some("tun0".into()),
        internal_ip: Some("10.0.0.2".into()),
        dns: Some("10.0.0.1".into()),
        gateway: Some("1.2.3.4".into()),
        match_domains: Some("a b".into()),
        routes: strings(&["10.0.0.0/8", "172.16.0.0/12"]),
        ..Default::default()
    };
    let c = Counters { rx_bytes: 2048, tx_bytes: 10, rx_pkts: 3, tx_pkts: 4 };
    let s = info(&host(), &office(), Some((42, 61)), Some(false), &t, Some(&c));
    assert_eq!(
        s,
        "Status:        Disconnecting…\nUptime:        1:01\nInterface:     tun0\n\
         Traffic in:    2.0 KB (3 pkts)\nTraffic out:   10 B (4 pkts)\nInternal IP:   10.0.0.2\n\
         Gateway:       1.2.3.4\nDNS:           10.0.0.1\nMatch domains: a b\n\
         Routes:        10.0.0.0/8, 172.16.0.0/12\n\nCommand (PID 42):\n\
         /usr/bin/pkexec /usr/bin/vpnc --non-inter --pid-file /c/run/u1-Office.pid -\n"
    );
    let s = info(&host(), &office(), Some((42, 61)), None, &TunnelInfo::default(), Some(&c));
    assert!(s.starts_with("Status:        Connected\nUptime:        1:01\n\nCommand (PID 42):\n"));
}

#[test]
fn the_log_is_rebuilt_once_more_after_a_drop() {
    let mut last = None;
    assert_eq!(debug_step(true, Some(7), &mut last, false), LogStep::ShowLog);
    assert_eq!(last, None);
    assert_eq!(debug_step(false, None, &mut last, false), LogStep::ShowLast);
    assert_eq!(debug_step(false, Some(7), &mut last, true), LogStep::Wait);
    assert_eq!(debug_step(false, Some(7), &mut last, false), LogStep::Rebuild(7));
    assert_eq!(debug_step(false, None, &mut last, true), LogStep::Wait);
    assert_eq!(last, Some(7));
    assert_eq!(debug_step(false, None, &mut last, false), LogStep::Rebuild(7));
    assert_eq!(debug_step(false, None, &mut last, false), LogStep::ShowLast);
}

#[test]
fn what_is_shown_of_logs() {
    assert_eq!(last_log(" \n"), "No session log yet — connect to capture one.");
    assert_eq!(last_log("x\n"), "x\n");
    assert_eq!(rebuilt(Some("lines")), "lines");
    assert_eq!(
        rebuilt(Some("\n")),
        "No vpnc output yet. At Debug 1 vpnc only logs steady-state packets; \
         raise Debug to 2 or 3 in Options for the handshake."
    );
    assert_eq!(
        rebuilt(None),
        "Can't read the system journal — your user needs to be in the \
         'systemd-journal' (or 'wheel') group.\nView manually with:  journalctl -t vpnc"
    );
}

#[test]
fn clearing_and_revealing_logs() {
    assert_eq!(
        clear_log("/c", &office()),
        (strings(&["/c/run/u1_Office.log", "/c/run/u1_Office.boot.log"]), true)
    );
    assert_eq!(clear_log("/c", &anyconnect()), (strings(&["/c/run/u1_Office.log"]), false));
    assert_eq!(reveal_rebuilds(&office(), &live(9, 1)), Some(9));
    assert_eq!(reveal_rebuilds(&office(), &Tunnels::new()), None);
    assert_eq!(reveal_rebuilds(&anyconnect(), &live(9, 1)), None);
    let c = reveal_log("/c", &office());
    assert_eq!(c.program, "/usr/bin/xdg-open");
    assert_eq!(c.args, ["/c/run/u1_Office.log"]);
}

#[test]
fn codes_of_nothing_are_none() {
    assert_eq!(otp::title(&office()), "Enter 2FA code for Office");
    assert!(matches!(otp::answer(Some(" 12 ".into())), Prompt::Code(c) if c == " 12 "));
    assert!(matches!(otp::answer(Some(" \t".into())), Prompt::Cancelled));
    assert!(matches!(otp::answer(None), Prompt::Cancelled));
}

#[test]
fn lines_of_the_main_window() {
    let lines = window::lines(&vec![office(), Profile { name: "x".into(), ..anyconnect() }], &live(7, 65));
    assert_eq!(lines.len(), 2);
    assert_eq!((lines[0].name.as_str(), lines[0].backend, lines[0].up), ("Office", "Cisco IPSec (vpnc)", Some(65)));
    assert_eq!((lines[1].name.as_str(), lines[1].backend, lines[1].up), ("x", "AnyConnect (openconnect)", None));
    assert_eq!(window::timer(65, 5), "1:10");
    assert_eq!((window::tooltip(true), window::tooltip(false)), ("Disconnect", "Connect"));
    assert!(matches!(window::click("a", true), Cmd::Disconnect(n) if n == "a"));
    assert!(matches!(window::click("a", false), Cmd::Connect(n) if n == "a"));
    assert!(window::shows_disconnect_all(&live(7, 1)));
    assert!(!window::shows_disconnect_all(&Tunnels::new()));
}

#[test]
fn removing_forgets_both_secrets() {
    assert_eq!(window::remove_question(&office()), "Remove “Office”?");
    let (list, secret, password) = window::remove(&office(), &vec![office()]);
    assert!(list.is_empty());
    assert_eq!(secret.args, ["clear", "service", "vpnc-u1-secret"]);
    assert_eq!(password.args, ["clear", "service", "vpnc-u1-password"]);
}

#[test]
fn lines_about_the_backends() {
    assert_eq!(backends(None, false, None), "vpnc: not installed\nopenconnect: not installed");
    assert_eq!(
        backends(Some("vpnc 0.5"), true, Some("OpenConnect v9")),
        "vpnc 0.5 · GPLv2\nOpenConnect v9 · LGPLv2.1"
    );
    assert_eq!(backends(None, true, None), "vpnc: not installed\nopenconnect: installed");
    assert!(REPO_URL.ends_with("vpncbar-linux"));
}

#[test]
fn uninstalling() {
    let c = uninstall();
    assert_eq!(c.program, "/usr/bin/pkexec");
    assert_eq!(c.args[..2], ["/bin/sh", "-c"]);
    assert_eq!(
        c.args[2],
        "rm -f /usr/bin/vpncbar \
         /usr/lib/vpncbar/vpncbar-script \
         /usr/lib/vpncbar/vpncbar-disconnect \
         /etc/polkit-1/rules.d/10-vpncbar.rules \
         /usr/share/applications/io.github.vpncbar.desktop \
         /usr/share/applications/vpncbar.desktop \
         /usr/share/icons/hicolor/scalable/apps/io.github.vpncbar.svg \
         /usr/share/icons/hicolor/scalable/apps/vpncbar.svg; \
         rmdir /usr/lib/vpncbar 2>/dev/null; exit 0"
    );
    assert_eq!(autostart_files().1, "autostart/vpncbar.desktop");
    assert_eq!(uninstall_failure(&output(0, "", "")), None);
    assert_eq!(
        uninstall_failure(&output(126, "", "")).as_deref(),
        Some("Authorization was cancelled — nothing was removed.")
    );
    assert_eq!(
        uninstall_failure(&output(2, "out", "")).as_deref(),
        Some("Removal failed (status 2):\nout")
    );
    assert_eq!(
        uninstall_failure(&output(2, "out", "err")).as_deref(),
        Some("Removal failed (status 2):\nerr")
    );
}
