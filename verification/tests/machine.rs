use vpncbar::privilege::{run_root, was_dismissed};
use vpncbar::secrets;
use vpncbar::model::Profile;
use vpncbar::sys::{
    certs_query, disconnect_helper, human_bytes, is_ipv4, openconnect_path, resolve_gateway_ip,
    tail_chars, tool_version, version_query, vpnc_script, vpnc_supports_certs, Host, Output,
};
use vpncbar::text_map::TextMap;

fn output(status: i32, out: &str, err: &str) -> Output {
    Output { status, out: out.to_string(), err: err.to_string() }
}

fn host() -> Host {
    Host {
        config: "/c/vpncbar".to_string(),
        script: None,
        script_installed: false,
        helper_installed: false,
        openconnect: false,
        openconnect_local: false,
    }
}

#[test]
fn script_prefers_the_environment_and_then_the_installed_one() {
    let mut h = host();
    assert_eq!(vpnc_script(&h), "/etc/vpnc/vpnc-script");
    h.script_installed = true;
    assert_eq!(vpnc_script(&h), "/usr/lib/vpncbar/vpncbar-script");
    h.script = Some("/my/script".to_string());
    assert_eq!(vpnc_script(&h), "/my/script");
}

#[test]
fn installed_tools_are_found() {
    let mut h = host();
    assert_eq!(disconnect_helper(&h), None);
    assert_eq!(openconnect_path(&h), None);
    h.openconnect_local = true;
    assert_eq!(openconnect_path(&h), Some("/usr/local/bin/openconnect"));
    h.openconnect = true;
    assert_eq!(openconnect_path(&h), Some("/usr/bin/openconnect"));
    h.helper_installed = true;
    assert_eq!(disconnect_helper(&h), Some("/usr/lib/vpncbar/vpncbar-disconnect"));
}

#[test]
fn only_status_zero_is_success() {
    assert!(output(0, "", "x").ok());
    assert!(!output(1, "", "").ok());
    assert!(!output(-1, "", "").ok());
}

#[test]
fn certificate_support_shows_in_the_libraries() {
    let q = certs_query();
    assert_eq!((q.program.as_str(), q.args.len()), ("/usr/bin/ldd", 1));
    assert_eq!(q.args[0], "/usr/bin/vpnc");
    assert!(vpnc_supports_certs(&output(0, "libGnuTLS.so.30 => /usr/lib", "")));
    assert!(vpnc_supports_certs(&output(0, "", "libgnutls")));
    assert!(!vpnc_supports_certs(&output(0, "libgcrypt.so", "")));
    // The two streams are read as one text.
    assert!(vpnc_supports_certs(&output(0, "gnu", "tls")));
}

#[test]
fn version_is_the_first_line_that_says_something() {
    assert_eq!(version_query("/usr/bin/vpnc").args, ["--version"]);
    assert_eq!(tool_version(None), None);
    assert_eq!(
        tool_version(Some(&output(0, "\n  vpnc version 0.5 \nmore", ""))).as_deref(),
        Some("vpnc version 0.5")
    );
    assert_eq!(tool_version(Some(&output(0, " \n", "on stderr\n"))).as_deref(), Some("on stderr"));
    assert_eq!(tool_version(Some(&output(0, "", ""))), None);
}

#[test]
fn addresses_are_told_from_names() {
    for s in ["0.0.0.0", "1.2.3.4", "255.255.255.255", "10.0.0.1"] {
        assert!(is_ipv4(s), "{s}");
    }
    for s in [
        "", "1.2.3", "1.2.3.4.5", "256.1.1.1", "01.2.3.4", "1.2.3.4 ", "+1.2.3.4", "1..2.3",
        "vpn.example.com", "1.2.3.1000", "::1",
    ] {
        assert!(!is_ipv4(s), "{s}");
    }
}

#[test]
fn last_address_stays_while_lookups_fail() {
    let mut cache: TextMap<String> = TextMap::new();
    assert_eq!(resolve_gateway_ip(&mut cache, "1.2.3.4", Some("9.9.9.9")), "1.2.3.4");
    assert_eq!(resolve_gateway_ip(&mut cache, "gw", None), "gw");
    assert_eq!(resolve_gateway_ip(&mut cache, "gw", Some("10.1.1.1")), "10.1.1.1");
    assert_eq!(resolve_gateway_ip(&mut cache, "gw", None), "10.1.1.1");
    assert_eq!(resolve_gateway_ip(&mut cache, "other", None), "other");
    assert_eq!(resolve_gateway_ip(&mut cache, "gw", Some("10.1.1.2")), "10.1.1.2");
    assert_eq!(resolve_gateway_ip(&mut cache, "gw", None), "10.1.1.2");
}

#[test]
fn tails_count_characters() {
    assert_eq!(tail_chars("  abc  ", 10), "  abc  ");
    assert_eq!(tail_chars("ab  ", 3), "b  ");
    assert_eq!(tail_chars("abcdef", 3), "def");
    assert_eq!(tail_chars("äöü", 2), "öü");
    assert_eq!(tail_chars("abc", 0), "");
    assert_eq!(tail_chars("", 5), "");
}

fn by_floats(n: u64) -> String {
    let units = ["B", "KB", "MB", "GB", "TB"];
    let mut v = n as f64;
    let mut i = 0;
    while v >= 1024.0 && i < units.len() - 1 {
        v /= 1024.0;
        i += 1;
    }
    if i == 0 {
        format!("{n} B")
    } else {
        format!("{v:.1} {}", units[i])
    }
}

#[test]
fn bytes_read_as_floats_would_print_them() {
    assert_eq!(human_bytes(0), "0 B");
    assert_eq!(human_bytes(1023), "1023 B");
    assert_eq!(human_bytes(1024), "1.0 KB");
    assert_eq!(human_bytes(1536), "1.5 KB");
    assert_eq!(human_bytes(1024 * 1024 - 1), "1024.0 KB");
    let mut samples: Vec<u64> = Vec::new();
    for n in 0..200_000u64 {
        samples.push(n);
    }
    for shift in 0..64u32 {
        for d in [0u64, 1, 2, 51, 52, 103, 1023, 1025] {
            samples.push((1u64 << shift).wrapping_add(d));
            samples.push((1u64 << shift).wrapping_sub(d));
            samples.push(u64::MAX >> shift);
        }
    }
    // Ties between two tenths, in each unit.
    for unit in [1u64 << 10, 1 << 20, 1 << 30, 1 << 40] {
        for twentieths in 20..4000u64 {
            if (unit * twentieths) % 20 == 0 {
                samples.push(unit * twentieths / 20);
            }
            samples.push(unit * twentieths / 20 + 1);
        }
    }
    let mut x = 0x2545f4914f6cdd1du64;
    for _ in 0..200_000 {
        x ^= x << 13;
        x ^= x >> 7;
        x ^= x << 17;
        samples.push(x);
        samples.push(x >> (x % 50));
    }
    for n in samples {
        assert_eq!(human_bytes(n), by_floats(n), "{n}");
    }
}

#[test]
fn root_goes_through_pkexec() {
    let c = run_root("/bin/x", &vec!["a".to_string(), "b".to_string()], Some("in".to_string()));
    assert_eq!(c.program, "/usr/bin/pkexec");
    assert_eq!(c.args, ["/bin/x", "a", "b"]);
    assert_eq!(c.stdin.as_deref(), Some("in"));
}

#[test]
fn refusals_are_told_from_failures() {
    assert!(was_dismissed(&output(126, "", "")));
    assert!(was_dismissed(&output(1, "", "Error: Not Authorized")));
    assert!(was_dismissed(&output(127, "", "Request DISMISSED")));
    assert!(!was_dismissed(&output(127, "dismissed", "exec failed")));
}

#[test]
fn secrets_go_by_the_uuid_and_never_by_the_arguments() {
    let mut p = Profile { uuid: Some("u1".into()), name: "a".into(), ..Default::default() };
    assert_eq!(secrets::kc_service(&p, "secret"), "vpnc-u1-secret");
    p.name = "renamed".into();
    assert_eq!(secrets::kc_service(&p, "password"), "vpnc-u1-password");
    p.uuid = None;
    assert_eq!(secrets::kc_service(&p, "secret"), "vpnc-renamed-secret");

    let c = secrets::store("svc", "acct", "hunter2");
    assert_eq!(c.program, "/usr/bin/secret-tool");
    assert_eq!(c.args, ["store", "--label", "svc", "service", "svc", "account", "acct"]);
    assert_eq!(c.stdin.as_deref(), Some("hunter2"));
    assert_eq!(secrets::lookup("svc").args, ["lookup", "service", "svc"]);
    assert_eq!(secrets::delete("svc").args, ["clear", "service", "svc"]);
}

#[test]
fn kept_secrets_read_back() {
    assert_eq!(secrets::get(&output(0, "hunter2", "")).as_deref(), Some("hunter2"));
    assert_eq!(secrets::get(&output(0, " a b \n\n", "")).as_deref(), Some(" a b "));
    assert_eq!(secrets::get(&output(0, "\n", "")), None);
    assert_eq!(secrets::get(&output(1, "hunter2", "")), None);
}

#[test]
fn text_maps_keep_one_value_for_a_key() {
    let mut m: TextMap<u32> = TextMap::new();
    assert!(m.is_empty());
    m.insert("b".to_string(), 1);
    m.insert("a".to_string(), 2);
    m.insert("b".to_string(), 3);
    assert_eq!(m.len(), 2);
    assert_eq!(m.get("b"), Some(&3));
    assert_eq!(m.get("c"), None);
    assert!(m.contains_key("a"));
    assert_eq!(m.keys(), ["b", "a"]);
    assert_eq!(m.entry(1), ("a", &2));
}
