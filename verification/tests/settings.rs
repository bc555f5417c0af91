use oci_free_tier_arm::config::{load_config, OciConfig};
use oci_free_tier_arm::environment::Environment;
use oci_free_tier_arm::settings::{env_bool, env_i64, env_str, expand_home, parse_i64};
use oci_free_tier_arm::text::{
    char_is_white, decimal_text, hex_text, joined, same_text, text_contains, trimmed,
};

fn some(s: &str) -> Option<String> {
    Some(s.to_string())
}

#[test]
fn white_space_is_that_of_the_standard_library() {
    for n in 0..=0x10ffffu32 {
        if let Some(c) = char::from_u32(n) {
            assert_eq!(char_is_white(c), c.is_whitespace(), "{:x}", n);
        }
    }
}

#[test]
fn texts_are_trimmed_and_searched() {
    assert_eq!(trimmed("  \t a b \u{3000}\n"), "a b");
    assert_eq!(trimmed(" \n "), "");
    assert!(text_contains("abcd", "bc"));
    assert!(text_contains("abcd", ""));
    assert!(text_contains("", ""));
    assert!(!text_contains("abcd", "cb"));
    assert!(!text_contains("ab", "abc"));
    assert!(same_text("é", "é"));
    assert!(!same_text("e", "é"));
    assert_eq!(joined(&vec!["a".to_string(), "b".to_string(), "c".to_string()], ", "), "a, b, c");
    assert_eq!(joined(&vec![], ", "), "");
}

#[test]
fn numbers_are_written_out() {
    for n in [0u64, 7, 10, 429, u64::MAX] {
        assert_eq!(decimal_text(n), n.to_string());
    }
    for n in [0u128, 9, 10, 15, 16, 1431704061123456789, u128::MAX] {
        assert_eq!(hex_text(n), format!("{:x}", n));
    }
}

#[test]
fn numbers_are_read_as_the_standard_library_reads_them() {
    for s in [
        "", "+", "-", "0", "-0", "+5", "007", "12", " 12", "12 ", "1e3", "1.5", "--1", "+-1", "٣",
        "9223372036854775807", "9223372036854775808", "-9223372036854775808",
        "-9223372036854775809", "99999999999999999999999999", "-99999999999999999999999999",
    ] {
        assert_eq!(parse_i64(s), s.parse::<i64>().ok(), "{:?}", s);
    }
}

#[test]
fn variables_fall_back_to_their_defaults() {
    assert_eq!(env_str(None, "d"), "d");
    assert_eq!(env_str(some(""), "d"), "");
    assert_eq!(env_str(some("v"), "d"), "v");
    assert_eq!(env_i64(None, 3), 3);
    assert_eq!(env_i64(some("x"), 3), 3);
    assert_eq!(env_i64(some("-4"), 3), -4);
    assert!(env_bool(None, true));
    assert!(!env_bool(None, false));
    assert!(env_bool(some("TrUe"), false));
    assert!(!env_bool(some("yes"), true));
    assert!(!env_bool(some(" true"), true));
}

#[test]
fn tilde_stands_for_the_home_directory() {
    assert_eq!(expand_home("~/.oci/config", "/home/a"), "/home/a/.oci/config");
    assert_eq!(expand_home("~", "/home/a"), "/home/a");
    assert_eq!(expand_home("~b/x", "/home/a"), "~b/x");
    assert_eq!(expand_home("/x/~/y", "/home/a"), "/x/~/y");
    assert_eq!(expand_home("~/", ""), "/");
    assert_eq!(expand_home("", "/home/a"), "");
}

fn nothing_set() -> Environment {
    Environment {
        display_name: None,
        ssh_key_file: None,
        boot_volume_size_gb: None,
        os_name: None,
        os_version: None,
        assign_public_ip: None,
        initial_backoff: None,
        max_backoff: None,
        max_retries: None,
        discord_webhook_url: None,
        dry_run: None,
        vcn_cidr: None,
        subnet_cidr: None,
        compartment_id: None,
        oci_config_file: None,
        user_profile: None,
        home: some("/home/a"),
    }
}

fn config() -> OciConfig {
    OciConfig {
        user: "u".to_string(),
        fingerprint: "f".to_string(),
        key_file: "k".to_string(),
        tenancy: "t".to_string(),
        region: "ap-kulai-2".to_string(),
    }
}

#[test]
fn defaults_are_as_documented() {
    let s = nothing_set().read();
    assert_eq!(s.display_name, "free-arm");
    assert_eq!(s.ssh_key_file, "/home/a/.ssh/id_rsa");
    assert_eq!(s.boot_volume_gb, 50);
    assert_eq!(s.os_name, "Canonical Ubuntu");
    assert_eq!(s.os_version, "22.04");
    assert!(s.assign_public_ip);
    assert_eq!(s.initial_backoff, 30);
    assert_eq!(s.max_backoff, 300);
    assert_eq!(s.max_retries, 0);
    assert_eq!(s.discord_webhook, "");
    assert!(!s.dry_run);
    assert_eq!(s.vcn_cidr, "10.0.0.0/16");
    assert_eq!(s.subnet_cidr, "10.0.0.0/24");
    assert_eq!(s.compartment_id, "");
    assert_eq!(s.config_file, "/home/a/.oci/config");
}

#[test]
fn variables_are_taken_over() {
    let mut env = nothing_set();
    env.boot_volume_size_gb = some("20");
    env.max_retries = some("7");
    env.dry_run = some("TRUE");
    env.compartment_id = some("  ocid1 \n");
    env.user_profile = some("C:/Users/a");
    env.assign_public_ip = some("no");
    let s = env.read();
    assert_eq!(s.boot_volume_gb, 50);
    assert_eq!(s.max_retries, 7);
    assert!(s.dry_run);
    assert!(!s.assign_public_ip);
    assert_eq!(s.compartment("t"), "ocid1");
    assert_eq!(s.ssh_key_file, "C:/Users/a/.ssh/id_rsa");
    let mut env = nothing_set();
    env.boot_volume_size_gb = some("200");
    env.home = None;
    let s = env.read();
    assert_eq!(s.boot_volume_gb, 200);
    assert_eq!(s.config_file, "/.oci/config");
}

#[test]
fn jobs_follow_the_settings() {
    let s = nothing_set().read();
    let job = s.job(&config(), "ssh-rsa AAAA", serde_json::Number::from_f64(1.0), None);
    assert_eq!(job.identity_host, "identity.ap-kulai-2.oraclecloud.com");
    assert_eq!(job.iaas_host, "iaas.ap-kulai-2.oraclecloud.com");
    assert_eq!(job.compartment, "t");
    assert_eq!(job.ssh_pub_key, "ssh-rsa AAAA");
    assert_eq!(job.ocpus, serde_json::Number::from_f64(1.0));
    assert_eq!(job.memory_gb, None);
    assert_eq!((job.initial_backoff, job.max_backoff, job.max_retries), (30, 300, 0));
}

const CONFIG: &str = "user=lost
[OTHER]
user=other
; comment
[DEFAULT]
# comment
user = ocid1.user
user=ocid1.user=2
fingerprint=aa:bb
key_file =  ~/k.pem
nonsense
tenancy=ocid1.tenancy
  region = ap-kulai-2  \r
[DEFAULT ]
region=wrong
";

fn complaint(content: &str) -> String {
    match load_config(content) {
        Err(e) => e,
        Ok(_) => panic!(),
    }
}

#[test]
fn config_takes_the_default_section() {
    let cfg = match load_config(CONFIG) {
        Ok(cfg) => cfg,
        Err(e) => panic!("{}", e),
    };
    assert_eq!(cfg.user, "ocid1.user=2");
    assert_eq!(cfg.fingerprint, "aa:bb");
    assert_eq!(cfg.key_file, "~/k.pem");
    assert_eq!(cfg.tenancy, "ocid1.tenancy");
    assert_eq!(cfg.region, "ap-kulai-2");
}

#[test]
fn config_of_two_default_sections_takes_the_last_values() {
    let content = format!("{}[DEFAULT]\nregion=eu-zurich-1\nuser=\n", CONFIG);
    assert_eq!(complaint(&content), "OCI config missing required field 'user'");
    let content = format!("{}[DEFAULT]\nregion=eu-zurich-1\n", CONFIG);
    match load_config(&content) {
        Ok(cfg) => assert_eq!(cfg.region, "eu-zurich-1"),
        Err(e) => panic!("{}", e),
    }
}

#[test]
fn config_complains_about_the_first_missing_field() {
    assert_eq!(complaint(""), "OCI config missing required field 'user'");
    assert_eq!(
        complaint("[DEFAULT]\nuser=u\nregion=r"),
        "OCI config missing required field 'fingerprint'"
    );
    assert_eq!(
        complaint("[DEFAULT]\nuser=u\nfingerprint=f\nregion=r"),
        "OCI config missing required field 'key_file'"
    );
    assert_eq!(
        complaint("[DEFAULT]\nuser=u\nfingerprint=f\nkey_file=k\nregion=r"),
        "OCI config missing required field 'tenancy'"
    );
    assert_eq!(
        complaint("[DEFAULT]\nuser=u\nfingerprint=f\nkey_file=k\ntenancy=t\n#region=r"),
        "OCI config missing required field 'region'"
    );
}

#[test]
fn config_ignores_comments_and_other_sections() {
    let noisy = CONFIG.replace("fingerprint", "\n  # user = x\n;user=y\nfingerprint");
    let extended = format!("{}[LAST]\nuser=z\nkey_file=z\n", noisy);
    match load_config(&extended) {
        Ok(cfg) => {
            assert_eq!(cfg.user, "ocid1.user=2");
            assert_eq!(cfg.key_file, "~/k.pem");
        }
        Err(e) => panic!("{}", e),
    }
}
