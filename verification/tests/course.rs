use oci_free_tier_arm::config::OciConfig;
use oci_free_tier_arm::environment::Environment;
use oci_free_tier_arm::error::ApiError;
use oci_free_tier_arm::flow::{Answer, Turn};
use oci_free_tier_arm::json::{get_str_or_empty, parse_json, to_bytes, Json};
use oci_free_tier_arm::notify::Notice;
use oci_free_tier_arm::provision::{Job, Outcome, Provisioner, Stage, Step};
use oci_free_tier_arm::request::{path_and_query, ApiCall};
use oci_free_tier_arm::resources::{
    check_existing_instance, get_instance, list_availability_domains, AddressLookup, Addresses,
    ImageSearch, RunningWait,
};

fn json(text: &str) -> Json {
    parse_json(text).unwrap()
}

fn http(status: u16, message: &str) -> ApiError {
    ApiError::Http { status, message: message.to_string() }
}

fn line(call: &ApiCall) -> String {
    format!("{} {}", call.method, path_and_query(&call.path, &call.query))
}

fn addresses(public: Option<&str>, private: Option<&str>) -> Addresses {
    Addresses {
        public: public.map(|s| s.to_string()),
        private: private.map(|s| s.to_string()),
    }
}

#[test]
fn domains_are_listed_by_name() {
    assert_eq!(
        list_availability_domains(Ok(json("[{\"name\":\"AD-1\"},{\"id\":\"x\"},{\"name\":\"AD-2\"}]"))),
        Ok(vec!["AD-1".to_string(), "AD-2".to_string()])
    );
    for none in ["[]", "{}", "[{\"name\":5}]"] {
        assert_eq!(
            list_availability_domains(Ok(json(none))),
            Err(ApiError::Other("No availability domains found in compartment.".to_string()))
        );
    }
    assert_eq!(list_availability_domains(Err(http(500, "x"))), Err(http(500, "x")));
}

#[test]
fn images_fall_back_to_any_version() {
    let (search, call) = ImageSearch::start("h", "c", "Canonical Ubuntu", "22.04");
    assert_eq!(
        line(&call),
        "GET /20160918/images?compartmentId=c&operatingSystem=Canonical%20Ubuntu&operatingSystemVersion=22.04&shape=VM.Standard.A1.Flex&sortBy=TIMECREATED&sortOrder=DESC"
    );
    let search = match search.get_latest_image(Ok(json("[]"))) {
        Turn::Go { state, after: 0, call } => {
            assert_eq!(
                line(&call),
                "GET /20160918/images?compartmentId=c&operatingSystem=Canonical%20Ubuntu&shape=VM.Standard.A1.Flex&sortBy=TIMECREATED&sortOrder=DESC"
            );
            state
        }
        _ => panic!(),
    };
    match search.get_latest_image(Ok(json("[]"))) {
        Turn::Stop { after: 0, error } => assert_eq!(
            error,
            ApiError::Other(
                "No Canonical Ubuntu images found for shape VM.Standard.A1.Flex. Try setting OS_NAME / OS_VERSION."
                    .to_string()
            )
        ),
        _ => panic!(),
    }
    let (search, _) = ImageSearch::start("h", "c", "Canonical Ubuntu", "22.04");
    match search.get_latest_image(Ok(json("[{\"id\":\"new\"},{\"id\":\"old\"}]"))) {
        Turn::Done(image) => assert_eq!(get_str_or_empty(&image, "id"), "new"),
        _ => panic!(),
    }
}

#[test]
fn live_instances_are_found() {
    let found = |text: &str| match check_existing_instance(Ok(json(text))) {
        Ok(Some(instance)) => get_str_or_empty(&instance, "id"),
        Ok(None) => "none".to_string(),
        Err(_) => panic!(),
    };
    for state in ["PROVISIONING", "RUNNING", "STARTING"] {
        assert_eq!(
            found(&format!(
                "[{{\"id\":\"a\",\"lifecycleState\":\"TERMINATED\"}},{{\"id\":\"b\",\"lifecycleState\":\"{}\"}}]",
                state
            )),
            "b"
        );
    }
    for state in ["STOPPED", "TERMINATED", "running"] {
        assert_eq!(found(&format!("[{{\"id\":\"a\",\"lifecycleState\":\"{}\"}}]", state)), "none");
    }
    assert_eq!(found("{}"), "none");
    assert_eq!(check_existing_instance(Err(http(404, "x"))), Err(http(404, "x")));
}

#[test]
fn instances_are_waited_for() {
    assert_eq!(line(&get_instance("h", "i")), "GET /20160918/instances/i");
    let state = |s: &str| json(&format!("{{\"lifecycleState\":\"{}\"}}", s));
    let (wait, call) = RunningWait::start("h", "i");
    assert_eq!(line(&call), "GET /20160918/instances/i");
    let wait = match wait.wait_for_running(Ok(state("PROVISIONING"))) {
        Turn::Go { state, after: 10, call } => {
            assert_eq!(line(&call), "GET /20160918/instances/i");
            state
        }
        _ => panic!(),
    };
    assert!(matches!(wait.wait_for_running(Ok(state("RUNNING"))), Turn::Done(_)));
    for (lost, complaint) in [
        ("TERMINATED", "terminated during provisioning"),
        ("FAULTED", "provisioning FAILED"),
        ("FAILED", "provisioning FAILED"),
    ] {
        let (wait, _) = RunningWait::start("h", "i");
        match wait.wait_for_running(Ok(state(lost))) {
            Turn::Stop { after: 0, error } => {
                assert_eq!(error, ApiError::Other(complaint.to_string()))
            }
            _ => panic!(),
        }
    }
    let (wait, _) = RunningWait::start("h", "i");
    match wait.wait_for_running(Err(http(404, "gone"))) {
        Turn::Stop { after: 0, error } => assert_eq!(error, http(404, "gone")),
        _ => panic!(),
    }
}

#[test]
fn addresses_are_those_of_the_first_interface_that_answers() {
    let (lookup, call) = AddressLookup::start("h", "c", "i");
    assert_eq!(line(&call), "GET /20160918/vnicAttachments?compartmentId=c&instanceId=i");
    let attachments = "[{\"lifecycleState\":\"DETACHED\",\"vnicId\":\"z\"},
        {\"lifecycleState\":\"ATTACHED\"},
        {\"lifecycleState\":\"ATTACHED\",\"vnicId\":\"a\"},
        {\"lifecycleState\":\"ATTACHED\",\"vnicId\":\"b\"}]";
    let lookup = match lookup.get_instance_ip(Ok(json(attachments))) {
        Turn::Go { state, after: 0, call } => {
            assert_eq!(line(&call), "GET /20160918/vnics/a");
            state
        }
        _ => panic!(),
    };
    let lookup = match lookup.get_instance_ip(Err(http(404, "x"))) {
        Turn::Go { state, after: 0, call } => {
            assert_eq!(line(&call), "GET /20160918/vnics/b");
            state
        }
        _ => panic!(),
    };
    match lookup.get_instance_ip(Ok(json("{\"privateIp\":\"10.0.0.2\"}"))) {
        Turn::Done(found) => assert_eq!(found, addresses(None, Some("10.0.0.2"))),
        _ => panic!(),
    }
    for answer in [Err(http(500, "x")), Ok(json("[]")), Ok(json("{}"))] {
        let (lookup, _) = AddressLookup::start("h", "c", "i");
        match lookup.get_instance_ip(answer) {
            Turn::Done(found) => assert_eq!(found, addresses(None, None)),
            _ => panic!(),
        }
    }
}

fn job(dry_run: bool, max_retries: i64) -> Job {
    let settings = Environment {
        display_name: None,
        ssh_key_file: None,
        boot_volume_size_gb: None,
        os_name: None,
        os_version: None,
        assign_public_ip: None,
        initial_backoff: None,
        max_backoff: None,
        max_retries: Some(max_retries.to_string()),
        discord_webhook_url: None,
        dry_run: Some(dry_run.to_string()),
        vcn_cidr: None,
        subnet_cidr: None,
        compartment_id: None,
        oci_config_file: None,
        user_profile: None,
        home: None,
    }
    .read();
    let config = OciConfig {
        user: "u".to_string(),
        fingerprint: "f".to_string(),
        key_file: "k".to_string(),
        tenancy: "t".to_string(),
        region: "r".to_string(),
    };
    settings.job(
        &config,
        "ssh-rsa AAAA",
        serde_json::Number::from_f64(1.0),
        serde_json::Number::from_f64(12.0),
    )
}

struct Record {
    calls: Vec<String>,
    rests: Vec<u64>,
    launches: Vec<String>,
    outcome: Outcome,
}

/// Goes the whole way, where `service` answers calls and each rest ends at a
/// full second.
fn go(job: Job, service: &dyn Fn(&str, usize) -> Answer) -> Record {
    let mut calls = vec![];
    let mut rests = vec![];
    let mut launches = vec![];
    let (first, call) = Provisioner::start(job);
    calls.push(line(&call));
    let answer = service(&line(&call), 0);
    let mut step = first.take(answer);
    loop {
        step = match step {
            Step::Ask { state, after, call } => {
                if after > 0 {
                    rests.push(after);
                }
                calls.push(line(&call));
                let answer = service(&line(&call), launches.len());
                state.take(answer)
            }
            Step::Launch(launcher) => {
                let (state, call) = launcher.launch(0x1f);
                calls.push(line(&call));
                assert_eq!(call.headers, vec![("opc-retry-token".to_string(), "1f".to_string())]);
                let text = line(&call);
                launches.push(String::from_utf8(to_bytes(call.body.unwrap())).unwrap());
                let answer = service(&text, launches.len());
                state.take(answer)
            }
            Step::Rest { launcher, seconds } => {
                rests.push(seconds);
                launcher.wake(0)
            }
            Step::End { outcome, .. } => return Record { calls, rests, launches, outcome },
        };
    }
}

const PUBLIC: &str =
    "[{\"id\":\"s\",\"lifecycleState\":\"AVAILABLE\",\"prohibitPublicIpOnVnic\":false}]";

/// A service with a network and an image and without instances, where a launch
/// is answered by `launch`.
fn service(call: &str, launch: &dyn Fn() -> Answer) -> Answer {
    if call.starts_with("POST /20160918/instances") {
        return launch();
    }
    Ok(json(if call.contains("/availabilityDomains") {
        "[{\"name\":\"AD-1\"},{\"name\":\"AD-2\"},{\"name\":\"AD-3\"}]"
    } else if call.contains("/vcns") {
        "[{\"id\":\"v\",\"lifecycleState\":\"AVAILABLE\"}]"
    } else if call.contains("/subnets") {
        PUBLIC
    } else if call.contains("/images") {
        "[{\"id\":\"img\",\"displayName\":\"Ubuntu\"}]"
    } else if call.contains("/instances?") {
        "[]"
    } else if call.contains("/instances/") {
        "{\"lifecycleState\":\"RUNNING\"}"
    } else if call.contains("/vnicAttachments") {
        "[{\"lifecycleState\":\"ATTACHED\",\"vnicId\":\"n\"}]"
    } else if call.contains("/vnics/") {
        "{\"publicIp\":\"1.2.3.4\",\"privateIp\":\"10.0.0.2\"}"
    } else {
        panic!("{}", call)
    }))
}

fn full() -> Answer {
    Err(http(500, "Out of host capacity."))
}

fn launched() -> Answer {
    Ok(json("{\"id\":\"i\",\"lifecycleState\":\"PROVISIONING\"}"))
}

#[test]
fn instances_are_launched_once_there_is_room() {
    let record = go(job(false, 0), &|call: &str, launches: usize| {
        service(call, &|| if launches < 5 { full() } else { launched() })
    });
    assert_eq!(
        record.calls[..6].to_vec(),
        vec![
            "GET /20160918/availabilityDomains?compartmentId=t",
            "GET /20160918/vcns?compartmentId=t",
            "GET /20160918/subnets?compartmentId=t&vcnId=v",
            "GET /20160918/images?compartmentId=t&operatingSystem=Canonical%20Ubuntu&operatingSystemVersion=22.04&shape=VM.Standard.A1.Flex&sortBy=TIMECREATED&sortOrder=DESC",
            "GET /20160918/instances?compartmentId=t&displayName=free-arm",
            "POST /20160918/instances",
        ]
    );
    assert_eq!(record.rests, vec![30, 45, 67, 100]);
    let domains: Vec<bool> = (0..5)
        .map(|n| record.launches[n].contains(&format!("\"AD-{}\"", n % 3 + 1)))
        .collect();
    assert_eq!(domains, vec![true; 5]);
    assert_eq!(
        record.launches[0],
        "{\"availabilityDomain\":\"AD-1\",\"compartmentId\":\"t\",\"createVnicDetails\":{\"assignPublicIp\":true,\"subnetId\":\"s\"},\"displayName\":\"free-arm\",\"metadata\":{\"ssh_authorized_keys\":\"ssh-rsa AAAA\"},\"shape\":\"VM.Standard.A1.Flex\",\"shapeConfig\":{\"memoryInGBs\":12.0,\"ocpus\":1.0},\"sourceDetails\":{\"bootVolumeSizeInGBs\":50,\"imageId\":\"img\",\"sourceType\":\"image\"}}"
    );
    match &record.outcome {
        Outcome::Running { instance_id, addresses: found } => {
            assert_eq!(instance_id, "i");
            assert_eq!(*found, addresses(Some("1.2.3.4"), Some("10.0.0.2")));
        }
        _ => panic!(),
    }
    assert_eq!(record.outcome.exit_code(), 0);
    assert_eq!(
        record.outcome.notice("free-arm"),
        Some(Notice {
            message: "Instance 'free-arm' is RUNNING!\n  Instance ID: i\n  Public IP: 1.2.3.4\n  SSH: ssh ubuntu@1.2.3.4\n  Private IP: 10.0.0.2\n".to_string(),
            success: true,
        })
    );
}

#[test]
fn regions_without_room_are_known_by_any_message_that_tells_it() {
    let record = go(job(false, 2), &|call: &str, _| {
        service(call, &|| Err(http(500, "É: OUT OF HOST CAPACITY Ü")))
    });
    assert_eq!(record.rests, vec![30, 45]);
    assert!(matches!(record.outcome, Outcome::GaveUp));
}

#[test]
fn tries_run_out() {
    let record = go(job(false, 4), &|call: &str, _| service(call, &full));
    assert_eq!(record.launches.len(), 4);
    assert_eq!(record.rests, vec![30, 45, 67, 100]);
    assert!(matches!(record.outcome, Outcome::GaveUp));
    assert_eq!(record.outcome.exit_code(), 1);
    assert_eq!(record.outcome.notice("free-arm"), None);
}

#[test]
fn dry_runs_launch_nothing() {
    let record = go(job(true, 0), &|call: &str, _| service(call, &|| panic!()));
    assert_eq!(record.launches.len(), 0);
    match &record.outcome {
        Outcome::DryRun { domain, subnet_id, image } => {
            assert_eq!(domain, "AD-1");
            assert_eq!(subnet_id, "s");
            assert_eq!(get_str_or_empty(image, "id"), "img");
        }
        _ => panic!(),
    }
    assert_eq!(record.outcome.exit_code(), 0);
    assert_eq!(record.outcome.notice("free-arm"), None);
}

#[test]
fn live_instances_are_kept() {
    for dry_run in [false, true] {
        let record = go(job(dry_run, 0), &|call: &str, _| {
            if call.contains("/instances?") {
                Ok(json("[{\"id\":\"old\",\"lifecycleState\":\"STARTING\"}]"))
            } else if call.contains("/vnics/") {
                Err(http(404, "x"))
            } else {
                service(call, &|| panic!())
            }
        });
        assert_eq!(record.launches.len(), 0);
        assert!(matches!(record.outcome, Outcome::Exists { .. }));
        assert_eq!(record.outcome.exit_code(), 0);
        assert_eq!(
            record.outcome.notice("free-arm"),
            Some(Notice {
                message: "Instance 'free-arm' already exists (state: STARTING). IP: N/A".to_string(),
                success: true,
            })
        );
    }
}

#[test]
fn failed_checks_for_instances_do_not_stop_the_way() {
    let record = go(job(false, 0), &|call: &str, _| {
        if call.contains("/instances?") {
            Err(http(401, "x"))
        } else {
            service(call, &launched)
        }
    });
    assert_eq!(record.launches.len(), 1);
    assert!(matches!(record.outcome, Outcome::Running { .. }));
}

#[test]
fn networks_are_made_where_none_is_found() {
    let record = go(job(true, 0), &|call: &str, _| {
        if call == "GET /20160918/vcns?compartmentId=t" {
            Ok(json("[]"))
        } else {
            service(call, &|| panic!())
        }
    });
    assert_eq!(
        record.calls[2],
        "GET /20160918/vcns?compartmentId=t&displayName=free-arm-vcn"
    );
    assert!(matches!(record.outcome, Outcome::DryRun { .. }));
}

#[test]
fn each_failure_has_its_end() {
    let failing = |part: &'static str| {
        go(job(false, 0), &move |call: &str, _| {
            if call.contains(part) {
                Err(http(404, "x"))
            } else {
                service(call, &|| panic!())
            }
        })
        .outcome
    };
    let domains = failing("/availabilityDomains");
    assert!(matches!(&domains, Outcome::DomainsFailed(e) if *e == http(404, "x")));
    assert_eq!((domains.exit_code(), domains.notice("n")), (1, None));
    assert!(matches!(failing("/subnets"), Outcome::SearchFailed(e) if e == http(404, "x")));
    let image = failing("/images");
    assert!(matches!(&image, Outcome::ImageFailed(e) if *e == http(404, "x")));
    assert_eq!((image.exit_code(), image.notice("n")), (1, None));
    let setup = go(job(false, 0), &|call: &str, _| {
        if call.contains("displayName=free-arm-vcn") {
            Err(http(404, "x"))
        } else if call.contains("/vcns") {
            Ok(json("[]"))
        } else {
            service(call, &|| panic!())
        }
    });
    assert!(matches!(setup.outcome, Outcome::SetupFailed(e) if e == http(404, "x")));
}

#[test]
fn failed_launches_are_told_of() {
    let after = |error: fn() -> ApiError| {
        go(job(false, 0), &move |call: &str, _| service(call, &|| Err(error())))
    };
    let refused = after(|| http(401, "NotAuthenticated"));
    assert_eq!(refused.launches.len(), 1);
    assert!(matches!(refused.outcome, Outcome::Refused(_)));
    assert_eq!(refused.outcome.exit_code(), 1);
    assert_eq!(
        refused.outcome.notice("n"),
        Some(Notice { message: "Non-retryable error: NotAuthenticated".to_string(), success: false })
    );
    let strange = after(|| http(500, "strange"));
    assert!(matches!(strange.outcome, Outcome::Unexpected(_)));
    assert_eq!(strange.outcome.exit_code(), 1);
    assert_eq!(
        strange.outcome.notice("n"),
        Some(Notice { message: "Unexpected error: strange".to_string(), success: false })
    );
}

#[test]
fn instances_that_do_not_run_are_told_of() {
    let record = go(job(false, 0), &|call: &str, _| {
        if call.contains("/instances/") {
            Ok(json("{\"lifecycleState\":\"FAULTED\"}"))
        } else {
            service(call, &launched)
        }
    });
    assert!(matches!(record.outcome, Outcome::NotRunning(_)));
    assert_eq!(record.outcome.exit_code(), 0);
    assert_eq!(
        record.outcome.notice("n"),
        Some(Notice {
            message: "Instance launched but failed to reach RUNNING state: provisioning FAILED"
                .to_string(),
            success: false,
        })
    );
}

#[test]
fn rate_limits_lengthen_the_rest() {
    let record = go(job(false, 3), &|call: &str, launches: usize| {
        service(call, &|| if launches == 1 { Err(http(429, "slow")) } else { full() })
    });
    assert_eq!(record.rests, vec![60, 90, 135]);
}

#[test]
fn stages_show_how_far_the_way_is() {
    let (first, _) = Provisioner::start(job(false, 0));
    assert!(matches!(first.stage, Stage::Domains));
    match first.take(Ok(json("[{\"name\":\"AD-1\"}]"))) {
        Step::Ask { state, .. } => match &state.stage {
            Stage::Search { domains, .. } => {
                assert_eq!(*domains.names(), vec!["AD-1".to_string()]);
                assert_eq!(domains.turn(7), "AD-1");
            }
            _ => panic!(),
        },
        _ => panic!(),
    }
}
