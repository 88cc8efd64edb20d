use vpncbar::config_import::{decrypt, decrypted, parse_config_file, ParsedConfig};
use vpncbar::sys::Output;

fn output(status: i32, out: &str) -> Output {
    Output { status, out: out.to_string(), err: String::new() }
}

fn plain(path: &str, raw: &str) -> ParsedConfig {
    parse_config_file(path, raw).unwrap().unseal(None, None)
}

#[test]
fn a_conf_file() {
    let c = plain(
        "/tmp/My Office.CONF",
        "# x\r\nIPSEC Gateway  vpn.example.com \r\nipsec id grp\nXauth username alice\n\
         IPSec secret  s3cret \nXauth password pw\n",
    );
    assert_eq!(c.profile.name, "my-office");
    assert_eq!(c.profile.gateway, "vpn.example.com");
    assert_eq!(c.profile.id, "grp");
    assert_eq!(c.profile.username, "alice");
    assert_eq!(c.secret.as_deref(), Some("s3cret"));
    assert_eq!(c.password.as_deref(), Some("pw"));
    assert_eq!(c.profile.uuid, None);
}

#[test]
fn a_pcf_file_with_encrypted_secrets() {
    let sealed = parse_config_file(
        "work.pcf",
        "[main]\nhost=gw\nGROUPNAME= g \nUsername=u\nGroupPwd=\nenc_GroupPwd=ABCD\n\
         enc_UserPassword=EF01\n",
    )
    .unwrap();
    assert_eq!(sealed.secret.encoded.as_deref(), Some("ABCD"));
    assert_eq!(sealed.password.encoded.as_deref(), Some("EF01"));
    assert_eq!(decrypt("ABCD").program, "/usr/bin/cisco-decrypt");
    assert_eq!(decrypt("ABCD").args, ["ABCD"]);
    let c = sealed.unseal(Some(&output(0, " geheim \n")), Some(&output(1, "x")));
    assert_eq!(c.profile.name, "work");
    assert_eq!(c.profile.gateway, "gw");
    assert_eq!(c.profile.id, " g ");
    assert_eq!(c.profile.username, "u");
    assert_eq!(c.secret.as_deref(), Some("geheim"));
    assert_eq!(c.password, None);
}

#[test]
fn plain_secrets_win_and_empty_ones_are_none() {
    let sealed =
        parse_config_file("a", "Host=h\nGroupPwd=plain\nenc_GroupPwd=AA\nUserPassword=\n").unwrap();
    assert_eq!(sealed.secret.encoded, None);
    let c = sealed.unseal(Some(&output(0, "other")), None);
    assert_eq!(c.secret.as_deref(), Some("plain"));
    assert_eq!(c.password, None);
    let sealed = parse_config_file(
        "a",
        "IPSec gateway g\nIPSec secret \nIPSec obfuscated secret 0102\nXauth password \n",
    )
    .unwrap();
    assert_eq!(sealed.secret.encoded.as_deref(), Some("0102"));
    assert_eq!(sealed.password.encoded, None);
    let c = sealed.unseal(Some(&output(0, "s")), None);
    assert_eq!((c.secret.as_deref(), c.password), (Some("s"), None));
}

#[test]
fn the_first_line_with_a_key_counts_and_missing_keys_are_empty() {
    let c = plain("..", "Host=one\nhost=two\n");
    assert_eq!(c.profile.name, "imported");
    assert_eq!(c.profile.gateway, "one");
    assert_eq!(c.profile.id, "");
    assert_eq!(c.profile.username, "");
}

#[test]
fn a_gateway_directive_makes_it_a_conf_file() {
    let c = plain("x", "Host=pcf\nIPSec gateway conf\n");
    assert_eq!(c.profile.gateway, "conf");
}

#[test]
fn other_files_are_refused() {
    assert!(parse_config_file("x.conf", "").is_none());
    assert!(parse_config_file("x.conf", "IPSec gateway\n Host=x\n").is_none());
}

#[test]
fn decoding_needs_success_and_some_text() {
    assert_eq!(decrypted(&output(0, " a b\n")).as_deref(), Some("a b"));
    assert_eq!(decrypted(&output(0, " \n")), None);
    assert_eq!(decrypted(&output(2, "a")), None);
}

#[test]
fn names_are_lower_case_with_hyphens() {
    assert_eq!(plain("/x/Büro ÄÖ 1.pcf", "Host=h").profile.name, "büro-äö-1");
}
