use vpncbar::model::{
    boot_log_file, config_dir, config_dir_in, fallback_bytes, info_file, join_path, log_file, ne,
    pid_file, profiles_path, remove_profile, run_dir, sort_by_name, split_domain_user, upsert,
    uuid_v4, Profile,
};

fn named(name: &str, uuid: Option<&str>) -> Profile {
    Profile {
        uuid: uuid.map(str::to_string),
        name: name.to_string(),
        ..Default::default()
    }
}

fn labels(list: &[Profile]) -> Vec<&str> {
    list.iter().map(|p| p.name.as_str()).collect()
}

#[test]
fn domain_user_split() {
    assert_eq!(split_domain_user("ACME\\alice"), (Some("ACME".into()), "alice".into()));
    assert_eq!(split_domain_user("bob"), (None, "bob".into()));
}

#[test]
fn domain_user_split_trims_and_drops_empty_domains() {
    assert_eq!(split_domain_user(" ACME \\ alice "), (Some("ACME".into()), "alice".into()));
    assert_eq!(split_domain_user("\\alice"), (None, "alice".into()));
    assert_eq!(split_domain_user("A\\b\\c"), (Some("A".into()), "b\\c".into()));
    assert_eq!(split_domain_user(" bob "), (None, " bob ".into()));
}

#[test]
fn ne_trims_and_nils() {
    assert_eq!(ne(Some("  x ")), Some("x".into()));
    assert_eq!(ne(Some("   ")), None);
    assert_eq!(ne(None), None);
}

#[test]
fn ne_of_what_ne_gave_is_the_same() {
    let once = ne(Some("\u{a0} two words \t"));
    assert_eq!(once.as_deref(), Some("two words"));
    assert_eq!(ne(once.as_deref()), once);
}

#[test]
fn kind_is_vpnc_unless_it_says_openconnect() {
    let mut p = Profile::default();
    assert!(!p.is_openconnect());
    p.kind = Some("vpnc".into());
    assert!(!p.is_openconnect());
    p.kind = Some("openconnect".into());
    assert!(p.is_openconnect());
}

#[test]
fn ident_is_the_uuid_or_the_name() {
    assert_eq!(named("Office", Some("u-1")).ident(), "u-1");
    assert_eq!(named("Office", None).ident(), "Office");
}

#[test]
fn safe_name_keeps_letters_digits_hyphens_and_underscores() {
    assert_eq!(named("My VPN (ÄÖ-1_2)/../x", None).safe_name(), "MyVPNÄÖ-1_2x");
    assert_eq!(named("日本 ٣", None).safe_name(), "日本٣");
}

#[test]
fn paths_of_a_profile() {
    let p = named("My VPN", Some("u1"));
    assert_eq!(profiles_path("/c/vpncbar"), "/c/vpncbar/profiles.json");
    assert_eq!(run_dir("/c/vpncbar"), "/c/vpncbar/run");
    assert_eq!(pid_file("/c/vpncbar", &p), "/c/vpncbar/run/u1-MyVPN.pid");
    assert_eq!(log_file("/c/vpncbar", &p), "/c/vpncbar/run/u1_MyVPN.log");
    assert_eq!(boot_log_file("/c/vpncbar", &p), "/c/vpncbar/run/u1_MyVPN.boot.log");
    assert_eq!(info_file(&p), "/run/vpncbar/u1.info");
    assert_eq!(profiles_path(""), "profiles.json");
    assert_eq!(pid_file("", &p), "run/u1-MyVPN.pid");
}

#[test]
fn joined_paths_are_those_of_std() {
    for dir in ["", "/", "/a", "/a/", "a", "a/b//"] {
        for name in ["x", "x/y", "/abs", "run"] {
            let expected = std::path::Path::new(dir).join(name);
            assert_eq!(join_path(dir, name), expected.to_str().unwrap(), "{dir:?} {name:?}");
        }
    }
}

#[test]
fn configuration_directory_has_a_fallback() {
    assert_eq!(config_dir_in(Some("/home/u/.config")), "/home/u/.config/vpncbar");
    assert_eq!(config_dir_in(None), "/tmp/vpncbar");
}

#[test]
fn configuration_directory_is_where_the_user_keeps_such() {
    let expected = dirs::config_dir()
        .unwrap_or_else(|| std::path::PathBuf::from("/tmp"))
        .join("vpncbar");
    assert_eq!(config_dir(), expected.to_string_lossy());
}

#[test]
fn upsert_adds_sorts_and_gives_a_uuid() {
    let list = vec![named("alpha", Some("a")), named("Gamma", Some("c"))];
    let (list, saved) = upsert(&list, named("Beta", None), [0xff; 16]);
    assert_eq!(labels(&list), ["alpha", "Beta", "Gamma"]);
    assert_eq!(saved.uuid.as_deref(), Some("ffffffff-ffff-4fff-bfff-ffffffffffff"));
    assert_eq!(list[1].uuid, saved.uuid);
}

#[test]
fn upsert_replaces_by_uuid_and_twice_is_once() {
    let list = vec![named("alpha", Some("a")), named("beta", Some("b"))];
    let (once, saved) = upsert(&list, named("zeta", Some("a")), [0; 16]);
    assert_eq!(labels(&once), ["beta", "zeta"]);
    assert_eq!(saved.uuid.as_deref(), Some("a"));
    let (twice, _) = upsert(&once, saved, [1; 16]);
    assert_eq!(labels(&twice), ["beta", "zeta"]);
}

#[test]
fn removing_undoes_adding() {
    let list = vec![named("alpha", Some("a")), named("beta", Some("b"))];
    let (more, saved) = upsert(&list, named("aaa", None), [7; 16]);
    assert_eq!(more.len(), 3);
    assert_eq!(labels(&remove_profile(&more, &saved)), ["alpha", "beta"]);
}

#[test]
fn sorting_is_by_lower_case_and_keeps_ties_in_place() {
    let list = vec![
        named("b", Some("1")),
        named("A", Some("2")),
        named("B", Some("3")),
        named("a", Some("4")),
        named("Äb", Some("5")),
        named("äa", Some("6")),
    ];
    let mut expected: Vec<(String, String)> =
        list.iter().map(|p| (p.name.clone(), p.uuid.clone().unwrap())).collect();
    expected.sort_by(|a, b| a.0.to_lowercase().cmp(&b.0.to_lowercase()));
    let sorted: Vec<(String, String)> = sort_by_name(&list)
        .iter()
        .map(|p| (p.name.clone(), p.uuid.clone().unwrap()))
        .collect();
    assert_eq!(sorted, expected);
}

#[test]
fn uuid_has_version_and_variant() {
    let bytes: [u8; 16] = [0, 1, 2, 3, 4, 5, 0xf6, 7, 0x38, 9, 10, 11, 12, 13, 14, 15];
    assert_eq!(uuid_v4(bytes), "00010203-0405-4607-b809-0a0b0c0d0e0f");
    assert_eq!(uuid_v4([0; 16]), "00000000-0000-4000-8000-000000000000");
}

#[test]
fn fallback_bytes_are_the_xorshift_ones() {
    let mut seed: u64 = 0x9e3779b97f4a7c15;
    let mut expected = [0u8; 16];
    for byte in expected.iter_mut() {
        seed ^= seed << 13;
        seed ^= seed >> 7;
        seed ^= seed << 17;
        *byte = (seed & 0xff) as u8;
    }
    assert_eq!(fallback_bytes(0x9e3779b97f4a7c15), expected);
}
