use vpncbar::model::Profile;
use vpncbar::tunnel::{
    connected_tunnels, format_elapsed, interface_counters, is_backend, is_backend_bin,
    is_connected, owner_of, pid_in, read_cmdline, read_tunnel_info, start_field, uptime_field,
    Process,
};

fn argv(l: &[&str]) -> Vec<String> {
    l.iter().map(|s| s.to_string()).collect()
}

fn profile(name: &str, uuid: Option<&str>) -> Profile {
    Profile { uuid: uuid.map(str::to_string), name: name.to_string(), ..Default::default() }
}

fn process(pid: u32, l: &[&str], elapsed: Option<u64>) -> Process {
    Process { pid, argv: argv(l), elapsed }
}

#[test]
fn command_lines_are_split_at_zero_bytes() {
    let raw = b"/usr/bin/vpnc\0--pid-file\0\0/x \xff.pid\0".to_vec();
    assert_eq!(read_cmdline(&raw), ["/usr/bin/vpnc", "--pid-file", "/x \u{fffd}.pid"]);
    assert_eq!(read_cmdline(&b"".to_vec()), Vec::<String>::new());
    assert_eq!(read_cmdline(&"caf\u{e9}".as_bytes().to_vec()), ["café"]);
}

#[test]
fn backends_are_told_by_their_base_name() {
    for s in ["vpnc", "/usr/bin/vpnc", "openconnect", "/a/openconnect"] {
        assert!(is_backend_bin(s), "{s}");
    }
    for s in ["vpncd", "/usr/bin/vpnc/", "openconnect2", ""] {
        assert!(!is_backend_bin(s), "{s}");
    }
    assert!(is_backend(&argv(&["sudo", "/usr/bin/vpnc"])));
    assert!(!is_backend(&argv(&[])));
}

#[test]
fn owners_go_by_the_pid_file() {
    let list = vec![profile("A b", Some("u1")), profile("legacy", None), profile("C", Some("u2"))];
    let own = |l: &[&str]| owner_of(&list, &argv(l));
    assert_eq!(own(&["vpnc", "--pid-file", "/r/u2-C.pid"]), Some(2));
    assert_eq!(own(&["vpnc", "--pid-file", "u1-Ab.pid", "-"]), Some(0));
    assert_eq!(own(&["vpnc", "--pid-file", "/r/legacy.pid"]), Some(1));
    assert_eq!(own(&["vpnc", "--pid-file", "/r/u2-X.pid"]), None);
    assert_eq!(own(&["vpnc", "--pid-file", "/r/u2-C"]), None);
    assert_eq!(own(&["vpnc", "--pid-file"]), None);
    assert_eq!(own(&["bash", "--pid-file", "/r/u2-C.pid"]), None);
}

#[test]
fn tunnels_come_from_processes_and_then_from_pid_files() {
    let list = vec![profile("a", Some("u1")), profile("b", Some("u2")), profile("c", Some("u3"))];
    let procs = vec![
        process(10, &["vpnc", "--pid-file", "/r/u1-a.pid"], Some(5)),
        process(11, &["vpnc", "--pid-file", "/r/u1-a.pid"], Some(6)),
        process(12, &["openconnect", "--pid-file", "/r/u2-b.pid"], None),
        process(13, &["bash"], Some(1)),
    ];
    let named = vec![
        Some(process(99, &["vpnc"], Some(1))),
        Some(process(12, &["openconnect"], Some(7))),
        Some(process(14, &["bash"], Some(1))),
    ];
    let live = connected_tunnels(&list, &procs, &named);
    assert_eq!(live.len(), 2);
    assert_eq!(live.get("a"), Some(&(11, 6)));
    assert_eq!(live.get("b"), Some(&(12, 7)));
    assert_eq!(live.get("c"), None);
}

#[test]
fn one_profile_is_connected_or_not() {
    let p = profile("a", Some("u1"));
    let procs = vec![process(10, &["vpnc", "--pid-file", "/r/u1-a.pid"], Some(5))];
    assert!(is_connected(&p, &procs, None));
    assert!(!is_connected(&p, &vec![], None));
    assert!(is_connected(&p, &vec![], Some(process(3, &["vpnc"], Some(0)))));
}

#[test]
fn numbers_in_the_kernels_files() {
    assert_eq!(pid_in(" 4321\n"), Some(4321));
    assert_eq!(pid_in("x"), None);
    let stat = format!("42 (a) b (c)) S {} 777 rest", vec!["0"; 18].join(" "));
    assert_eq!(start_field(&stat).as_deref(), Some("777"));
    assert_eq!(start_field("42 (x) S 1 2 3"), None);
    assert_eq!(start_field("no bracket"), None);
    assert_eq!(uptime_field("12345.67 999.1\n").as_deref(), Some("12345.67"));
    assert_eq!(uptime_field(" \n"), None);
}

#[test]
fn elapsed_times() {
    assert_eq!(format_elapsed(0), "0:00");
    assert_eq!(format_elapsed(59), "0:59");
    assert_eq!(format_elapsed(3599), "59:59");
    assert_eq!(format_elapsed(3600), "1:00:00");
    assert_eq!(format_elapsed(86399), "23:59:59");
    assert_eq!(format_elapsed(86400), "1d 0h");
    assert_eq!(format_elapsed(3 * 86400 + 5 * 3600 + 7), "3d 5h");
}

#[test]
fn counters_of_an_interface() {
    let data = "Inter-| Receive\n face |bytes\n  lo: 1 2 3 4 5 6 7 8 9 10 11\n\
                tun0: 100 2 0 0 0 0 0 0 300 4 0\n tun1: 1 2 3\n";
    let c = interface_counters(data, "tun0").unwrap();
    assert_eq!((c.rx_bytes, c.rx_pkts, c.tx_bytes, c.tx_pkts), (100, 2, 300, 4));
    let c = interface_counters(data, "lo").unwrap();
    assert_eq!((c.rx_bytes, c.rx_pkts, c.tx_bytes, c.tx_pkts), (1, 2, 9, 10));
    assert!(interface_counters(data, "tun1").is_none());
    assert!(interface_counters(data, "eth0").is_none());
}

#[test]
fn records_of_a_tunnel() {
    let t = read_tunnel_info(Some(
        "TUNDEV=tun0\nINTERNAL_IP4_ADDRESS=10.0.0.2\nINTERNAL_IP4_DNS=10.0.0.1 10.0.0.3\n\
         VPNGATEWAY=1.2.3.4\nCISCO_DEF_DOMAIN=corp\nCISCO_SPLIT_DNS=a,b\n\
         VPNC_MATCH_DOMAINS=\nROUTE=10.0.0.0/8\nROUTE=\nROUTE=x=y\nOTHER=z\nnoise\nVPNGATEWAY=5.6.7.8\n",
    ));
    assert_eq!(t.iface.as_deref(), Some("tun0"));
    assert_eq!(t.internal_ip.as_deref(), Some("10.0.0.2"));
    assert_eq!(t.dns.as_deref(), Some("10.0.0.1 10.0.0.3"));
    assert_eq!(t.gateway.as_deref(), Some("5.6.7.8"));
    assert_eq!(t.def_domain.as_deref(), Some("corp"));
    assert_eq!(t.split_dns.as_deref(), Some("a,b"));
    assert_eq!(t.match_domains, None);
    assert_eq!(t.routes, ["10.0.0.0/8", "x=y"]);
    assert_eq!(read_tunnel_info(None).iface, None);
}
