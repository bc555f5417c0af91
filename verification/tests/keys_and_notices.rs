use oci_free_tier_arm::json::{get_str_or_empty, take_items};
use oci_free_tier_arm::notify::{notify, payload_of};
use oci_free_tier_arm::ssh::{ensure_ssh_key, pub_path, KeyCommand, KeyRun, KeyStep};

fn args_of(step: KeyStep) -> (Vec<String>, KeyStep, KeyStep, KeyStep) {
    match step {
        KeyStep::Run { args, run } => {
            let again = |command: KeyCommand, key_file: &str| KeyRun {
                key_file: key_file.to_string(),
                command,
            };
            let (command, key_file) = (run.command, run.key_file.clone());
            (
                args,
                run.ran(None),
                again(command, &key_file).ran(Some(String::new())),
                again(command, &key_file).ran(Some(" ssh-rsa AAAA me \n".to_string())),
            )
        }
        _ => panic!(),
    }
}

fn is_read_of(step: KeyStep, path: &str) -> bool {
    match step {
        KeyStep::Read(read) => read.pub_file == path,
        _ => false,
    }
}

#[test]
fn public_keys_that_are_there_are_read() {
    for key_exists in [false, true] {
        let read = match ensure_ssh_key("/h/id", true, key_exists) {
            KeyStep::Read(read) => read,
            _ => panic!(),
        };
        assert_eq!(read.pub_file, "/h/id.pub");
        match read.read(Ok(" ssh-rsa AAAA me\r\n".to_string())) {
            KeyStep::Done { key, write } => {
                assert_eq!(key, "ssh-rsa AAAA me");
                assert_eq!(write, None);
            }
            _ => panic!(),
        }
    }
    assert_eq!(pub_path("/h/id"), "/h/id.pub");
}

#[test]
fn unreadable_public_keys_are_complained_about() {
    match ensure_ssh_key("/h/id", true, true) {
        KeyStep::Read(read) => match read.read(Err("denied".to_string())) {
            KeyStep::Fail(complaint) => assert_eq!(complaint, "cannot read /h/id.pub: denied"),
            _ => panic!(),
        },
        _ => panic!(),
    }
}

#[test]
fn public_keys_are_derived_from_private_ones() {
    let (args, failed, silent, told) = args_of(ensure_ssh_key("/h/id", false, true));
    assert_eq!(args, vec!["-y", "-f", "/h/id"]);
    match told {
        KeyStep::Done { key, write } => {
            assert_eq!(key, "ssh-rsa AAAA me");
            assert_eq!(write, Some("ssh-rsa AAAA me\n".to_string()));
        }
        _ => panic!(),
    }
    for step in [failed, silent] {
        let (args, _, _, _) = args_of(step);
        assert_eq!(args[1], "rsa");
    }
}

#[test]
fn keys_are_made_where_there_are_none() {
    let (args, failed, silent, told) = args_of(ensure_ssh_key("/h/id", false, false));
    assert_eq!(args, vec!["-t", "rsa", "-b", "4096", "-f", "/h/id", "-N", "", "-q"]);
    assert!(is_read_of(silent, "/h/id.pub"));
    assert!(is_read_of(told, "/h/id.pub"));
    let (args, failed, silent, told) = args_of(failed);
    assert_eq!(args, vec!["-t", "ed25519", "-f", "/h/id", "-N", "", "-q"]);
    assert!(is_read_of(silent, "/h/id.pub"));
    assert!(is_read_of(told, "/h/id.pub"));
    match failed {
        KeyStep::Fail(complaint) => assert_eq!(
            complaint,
            "Cannot generate SSH key. Run: ssh-keygen -t rsa -b 4096 -f /h/id"
        ),
        _ => panic!(),
    }
}

#[test]
fn notices_are_posted_where_there_is_a_channel() {
    assert_eq!(notify("hello", true, ""), None);
    assert_eq!(
        String::from_utf8(notify("hello", true, "https://x").unwrap()).unwrap(),
        "{\"embeds\":[{\"color\":2664261,\"description\":\"hello\",\"title\":\"OCI Free Tier ARM — SUCCESS\"}]}"
    );
    assert_eq!(
        String::from_utf8(notify("é\n", false, "https://x").unwrap()).unwrap(),
        "{\"embeds\":[{\"color\":14431557,\"description\":\"é\\n\",\"title\":\"OCI Free Tier ARM — UPDATE\"}]}"
    );
}

#[test]
fn long_notices_are_cut() {
    let description = |message: &str| -> String {
        let j = payload_of(message, true);
        let embeds = take_items(j, "embeds");
        get_str_or_empty(&embeds[0], "description")
    };
    let exact = "é".repeat(2048);
    assert_eq!(description(&exact), exact);
    assert_eq!(description(&format!("{}x", exact)), exact);
}
