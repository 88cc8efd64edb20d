use vpncbar::backend::openconnect::build_args;
use vpncbar::backend::ActionResult;
use vpncbar::cli::{
    arguments_line, group_line, list_entry, list_head, result_line, run, stored_line, Task,
};
use vpncbar::model::Profile;
use vpncbar::sys::Host;
use vpncbar::tunnel::Tunnels;

fn profiles() -> Vec<Profile> {
    vec![
        Profile {
            uuid: Some("u1".into()),
            name: "a".into(),
            gateway: "gw".into(),
            id: "grp".into(),
            username: "usr".into(),
            ..Default::default()
        },
        Profile {
            uuid: Some("u2".into()),
            name: "b".into(),
            kind: Some("openconnect".into()),
            ..Default::default()
        },
    ]
}

fn asked(l: &[&str]) -> Task {
    let mut args = vec!["vpncbar".to_string()];
    args.extend(l.iter().map(|s| s.to_string()));
    run(&args, &profiles())
}

#[test]
fn windows_are_the_default() {
    assert!(matches!(asked(&[]), Task::Gui));
    assert!(matches!(asked(&["--help"]), Task::Gui));
    assert!(matches!(run(&vec![], &vec![]), Task::Gui));
}

#[test]
fn commands_find_their_profiles() {
    assert!(matches!(asked(&["list"]), Task::List));
    assert!(matches!(asked(&["connect", "a"]), Task::Connect(p, None) if p.name == "a"));
    assert!(matches!(asked(&["connect", "b", "12"]), Task::Connect(_, Some(c)) if c == "12"));
    assert!(matches!(asked(&["disconnect", "b"]), Task::Disconnect(p) if p.name == "b"));
    assert!(matches!(asked(&["info", "a"]), Task::Info(_)));
    assert!(matches!(asked(&["groups", "srv"]), Task::Groups(s, None) if s == "srv"));
    assert!(matches!(asked(&["groups", "srv", "pin"]), Task::Groups(_, Some(p)) if p == "pin"));
    assert!(matches!(asked(&["config", "a"]), Task::Config(_)));
    assert!(matches!(asked(&["config", "b"]), Task::Arguments(_)));
}

#[test]
fn secrets_are_set_for_the_group_or_the_user() {
    match asked(&["set-secret", "a", "secret", "s"]) {
        Task::SetSecret(c) => {
            assert_eq!(c.args[2], "vpnc-u1-secret");
            assert_eq!(c.args[6], "grp");
            assert_eq!(c.stdin.as_deref(), Some("s"));
        }
        other => panic!("{other:?}"),
    }
    match asked(&["set-secret", "a", "password", "s"]) {
        Task::SetSecret(c) => assert_eq!(c.args[6], "usr"),
        other => panic!("{other:?}"),
    }
}

#[test]
fn usage_is_told() {
    for (args, usage) in [
        (vec!["connect"], "usage: vpncbar connect <name> [otp]"),
        (vec!["connect", "x"], "usage: vpncbar connect <name> [otp]"),
        (vec!["disconnect", "x"], "usage: vpncbar disconnect <name>"),
        (vec!["info"], "usage: vpncbar info <name>"),
        (vec!["groups"], "usage: vpncbar groups <server> [servercert-pin]"),
        (
            vec!["set-secret", "a", "secret"],
            "usage: vpncbar set-secret <name> <secret|password> <value>",
        ),
        (vec!["config"], "usage: vpncbar config <name>"),
    ] {
        assert!(matches!(asked(&args), Task::Usage(u) if u == usage), "{args:?}");
    }
}

#[test]
fn lists_line_up() {
    let mut live = Tunnels::new();
    live.insert("b".to_string(), (42, 61));
    let p = profiles();
    assert_eq!(list_head(2, "/c/profiles.json"), "2 profile(s) in /c/profiles.json");
    assert_eq!(
        list_entry(&p[0], &live),
        format!("  [{:>4}] {:20} {}  ({})", "vpnc", "a", "gw", "down")
    );
    assert_eq!(
        list_entry(&p[1], &live),
        format!("  [{:>4}] {:20} {}  ({})", "oc", "b", "", "UP pid=42 1:01")
    );
    let long = Profile { name: "ä".repeat(25), ..Default::default() };
    assert_eq!(
        list_entry(&long, &live),
        format!("  [{:>4}] {:20} {}  ({})", "vpnc", "ä".repeat(25), "", "down")
    );
    let wide = Profile { name: "ä".repeat(5), ..Default::default() };
    assert_eq!(
        list_entry(&wide, &live),
        format!("  [{:>4}] {:20} {}  ({})", "vpnc", "ä".repeat(5), "", "down")
    );
}

#[test]
fn other_lines() {
    assert_eq!(group_line(&("Eng".to_string(), true)), "Eng  (2FA)");
    assert_eq!(group_line(&("Eng".to_string(), false)), "Eng");
    assert_eq!(stored_line(true), "stored");
    assert_eq!(stored_line(false), "failed");
    assert_eq!(result_line(ActionResult::Done), ("ok".to_string(), false));
    assert_eq!(result_line(ActionResult::Message("m".into())), ("m".to_string(), true));
    let h = Host {
        config: "/c".to_string(),
        script: None,
        script_installed: false,
        helper_installed: false,
        openconnect: true,
        openconnect_local: false,
    };
    assert_eq!(
        arguments_line(&h, &profiles()[1]),
        format!("pkexec {}", build_args(&h, &profiles()[1]).join(" "))
    );
}
