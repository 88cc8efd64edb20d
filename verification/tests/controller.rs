use vpncbar::app::{
    closed_notice, find, opened_notice, prompted, Action, App, Cmd, Prompt,
};
use vpncbar::model::Profile;
use vpncbar::sys::Host;
use vpncbar::text_map::TextMap;
use vpncbar::tray::{watcher_offline, watcher_online, Item, Tray};
use vpncbar::tunnel::Tunnels;

fn host(helper_installed: bool) -> Host {
    Host {
        config: "/c".to_string(),
        script: None,
        script_installed: false,
        helper_installed,
        openconnect: false,
        openconnect_local: false,
    }
}

fn profile(name: &str) -> Profile {
    Profile { name: name.to_string(), ..Default::default() }
}

fn tunnels(l: &[(&str, u32, u64)]) -> Tunnels {
    let mut t = Tunnels::new();
    for (name, pid, secs) in l {
        t.insert(name.to_string(), (*pid, *secs));
    }
    t
}

fn profiles() -> Vec<Profile> {
    vec![profile("a"), profile("b"), profile("c")]
}

#[test]
fn first_look_is_silent() {
    let mut app = App::new(profiles());
    let c = app.refresh(&host(true), profiles(), tunnels(&[("a", 1, 5)]));
    assert!(c.opened.is_empty() && c.closed.is_empty() && c.sweep.is_none());
    assert_eq!(c.watch, [1]);
    assert!(c.unwatch.is_empty());
    assert_eq!(app.connected().get("a"), Some(&(1, 5)));
}

#[test]
fn changes_between_looks_are_told() {
    let mut app = App::new(vec![]);
    app.refresh(&host(true), profiles(), tunnels(&[("a", 1, 5), ("b", 2, 5)]));
    app.watching(1);
    app.watching(2);
    assert!(app.is_watched(1) && !app.is_watched(3));
    let c = app.refresh(&host(true), profiles(), tunnels(&[("b", 2, 9), ("c", 3, 0)]));
    assert_eq!(c.opened, ["c"]);
    assert_eq!(c.closed, ["a"]);
    let sweep = c.sweep.unwrap();
    assert_eq!(sweep.program, "/usr/bin/pkexec");
    assert_eq!(sweep.args, ["/usr/lib/vpncbar/vpncbar-disconnect", "sweep"]);
    assert_eq!(c.watch, [3]);
    assert_eq!(c.unwatch, [1]);
    assert!(!app.is_watched(1) && app.is_watched(2));
    let c = app.refresh(&host(true), profiles(), tunnels(&[("c", 3, 4), ("b", 2, 12)]));
    assert!(c.opened.is_empty() && c.closed.is_empty() && c.sweep.is_none());
    // What was not opened for watching is asked for again.
    assert_eq!(c.watch, [3]);
}

#[test]
fn nothing_is_swept_without_the_helper() {
    let mut app = App::new(vec![]);
    app.refresh(&host(false), profiles(), tunnels(&[("a", 1, 5)]));
    let c = app.refresh(&host(false), profiles(), tunnels(&[]));
    assert_eq!(c.closed, ["a"]);
    assert!(c.sweep.is_none());
}

#[test]
fn two_tunnels_of_one_process_are_watched_once() {
    let mut app = App::new(vec![]);
    let c = app.refresh(&host(false), profiles(), tunnels(&[("a", 1, 5), ("b", 1, 5)]));
    assert_eq!(c.watch, [1]);
}

#[test]
fn notices_name_the_tunnel() {
    let n = opened_notice("Office");
    assert_eq!((n.summary.as_str(), n.body.as_str()), ("VPN connected", "Connected to Office."));
    let n = closed_notice("Office");
    assert_eq!(
        (n.summary.as_str(), n.body.as_str()),
        ("VPN disconnected", "Disconnected from Office.")
    );
}

#[test]
fn ticks_change_ages_only() {
    let mut app = App::new(vec![]);
    app.refresh(&host(false), profiles(), tunnels(&[("a", 1, 5), ("b", 2, 6)]));
    let mut ages: TextMap<u64> = TextMap::new();
    ages.insert("a".to_string(), 50);
    ages.insert("z".to_string(), 99);
    app.tick(&ages);
    assert_eq!(app.connected().get("a"), Some(&(1, 50)));
    assert_eq!(app.connected().get("b"), Some(&(2, 6)));
    assert_eq!(app.connected().len(), 2);
}

#[test]
fn connecting_asks_for_a_code_where_the_profile_does() {
    let mut p = profile("oc");
    p.kind = Some("openconnect".into());
    p.oc_otp = Some(true);
    let mut q = profile("v");
    q.oc_otp = Some(true);
    let mut app = App::new(vec![p, q]);
    assert!(matches!(app.handle(Cmd::Connect("oc".into())), Action::AskCode(p) if p.name == "oc"));
    assert!(
        matches!(app.handle(Cmd::Connect("v".into())), Action::Connect(p, None) if p.name == "v")
    );
    assert!(matches!(app.handle(Cmd::Connect("none".into())), Action::Nothing));
}

#[test]
fn answers_to_the_question_for_a_code() {
    assert!(matches!(prompted(profile("a"), Prompt::Absent), Action::Connect(_, None)));
    assert!(matches!(prompted(profile("a"), Prompt::Cancelled), Action::Nothing));
    assert!(matches!(
        prompted(profile("a"), Prompt::Code("123".into())),
        Action::Connect(_, Some(c)) if c == "123"
    ));
}

#[test]
fn disconnecting_one_or_all() {
    let mut app = App::new(profiles());
    app.refresh(&host(false), profiles(), tunnels(&[("c", 3, 1), ("a", 1, 1)]));
    match app.handle(Cmd::Disconnect("b".into())) {
        Action::Disconnect(v) => assert_eq!(v.len(), 1),
        other => panic!("{other:?}"),
    }
    assert!(matches!(app.handle(Cmd::Disconnect("x".into())), Action::Nothing));
    match app.handle(Cmd::DisconnectAll) {
        Action::Disconnect(v) => {
            let names: Vec<&str> = v.iter().map(|p| p.name.as_str()).collect();
            assert_eq!(names, ["a", "c"]);
        }
        other => panic!("{other:?}"),
    }
    let last = App::disconnect_all_sync(&profiles(), &tunnels(&[("b", 2, 1)]));
    assert_eq!(last.len(), 1);
    assert_eq!(last[0].name, "b");
}

#[test]
fn plain_commands_pass_through() {
    let mut app = App::new(vec![]);
    assert!(matches!(app.handle(Cmd::OpenWindow), Action::OpenWindow));
    assert!(matches!(app.handle(Cmd::About), Action::About));
    assert!(matches!(app.handle(Cmd::Refresh), Action::Refresh));
    assert!(matches!(app.handle(Cmd::Quit), Action::Quit));
    assert!(app.profiles().is_empty());
}

#[test]
fn the_fallback_is_shown_once_for_each_loss_of_the_tray() {
    let mut app = App::new(vec![]);
    match app.handle(Cmd::TrayUnavailable) {
        Action::Fallback(n) => {
            assert_eq!(n.summary, "VpncBar: no system tray");
            assert_eq!(
                n.body,
                "No status-tray host was found, so the tray icon can't be shown. \
                 The VpncBar window is open instead. On GNOME, enable the \
                 AppIndicator/KStatusNotifierItem extension to get the tray icon."
            );
        }
        other => panic!("{other:?}"),
    }
    assert!(matches!(app.handle(Cmd::TrayUnavailable), Action::Nothing));
    app.handle(Cmd::Refresh);
    assert!(matches!(app.handle(Cmd::TrayUnavailable), Action::Nothing));
    assert!(matches!(app.handle(Cmd::TrayRestored), Action::Nothing));
    assert!(matches!(app.handle(Cmd::TrayUnavailable), Action::Fallback(_)));
}

#[test]
fn the_first_profile_with_a_label_is_found() {
    let mut first = profile("x");
    first.gateway = "one".into();
    let list = vec![profile("y"), first, profile("x")];
    assert_eq!(find(&list, "x").unwrap().gateway, "one");
    assert!(find(&list, "z").is_none());
}

fn menu_lines(t: &Tray) -> Vec<String> {
    t.menu()
        .into_iter()
        .map(|i| match i {
            Item::Separator => "-".to_string(),
            Item::Disabled { label } => format!("({label})"),
            Item::Profile { label, up, .. } => format!("{}{label}", if up { "*" } else { " " }),
            Item::Command { label, cmd } => format!("{label}={cmd:?}"),
        })
        .collect()
}

#[test]
fn menu_without_profiles() {
    let t = Tray { profiles: vec![], connected: Tunnels::new() };
    assert_eq!(
        menu_lines(&t),
        ["(No VPNs)", "-", "Open VpncBar…=OpenWindow", "About=About", "-", "Quit=Quit"]
    );
    assert_eq!(t.tool_tip(), "No tunnels up");
    assert!(matches!(t.activate(), Cmd::OpenWindow));
    assert!(!t.locked());
}

#[test]
fn menu_with_a_tunnel_up() {
    let t = Tray {
        profiles: vec!["a".to_string(), "b".to_string()],
        connected: tunnels(&[("b", 2, 3661)]),
    };
    assert_eq!(
        menu_lines(&t),
        [
            " a", "*b (1:01:01)", "-", "Disconnect All=DisconnectAll", "Open VpncBar…=OpenWindow",
            "About=About", "-", "Quit=Quit",
        ]
    );
    assert_eq!(t.tool_tip(), "1 tunnel up");
    assert!(t.locked());
    assert!(matches!(t.row_command("a"), Cmd::Connect(n) if n == "a"));
    assert!(matches!(t.row_command("b"), Cmd::Disconnect(n) if n == "b"));
}

#[test]
fn tool_tips_count() {
    let t = Tray { profiles: vec![], connected: tunnels(&[("a", 1, 1), ("b", 2, 2)]) };
    assert_eq!(t.tool_tip(), "2 tunnels up");
}

#[test]
fn losing_the_host_of_the_tray() {
    assert!(matches!(watcher_offline(true), Some(Cmd::TrayUnavailable)));
    assert!(watcher_offline(false).is_none());
    assert!(matches!(watcher_online(), Cmd::TrayRestored));
}
