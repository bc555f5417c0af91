use oci_free_tier_arm::error::ApiError;
use oci_free_tier_arm::flow::Turn;
use oci_free_tier_arm::json::{get_str_or_empty, parse_json, to_bytes, Json};
use oci_free_tier_arm::network::{Found, NetworkSearch, WaitAvailable};
use oci_free_tier_arm::network_setup::{range_of_subnet, NetworkSetup};
use oci_free_tier_arm::request::{path_and_query, ApiCall};

fn json(text: &str) -> Json {
    parse_json(text).unwrap()
}

fn down() -> ApiError {
    ApiError::Http { status: 503, message: "down".to_string() }
}

/// A call as one line of text: the method, the target and the body.
fn line(call: &ApiCall) -> String {
    let target = path_and_query(&call.path, &call.query);
    match &call.body {
        None => format!("{} {}", call.method, target),
        Some(_) => format!("{} {} +", call.method, target),
    }
}

fn body(call: ApiCall) -> String {
    String::from_utf8(to_bytes(call.body.unwrap())).unwrap()
}

#[test]
fn waits_end_when_the_resource_is_there() {
    let (wait, call) = WaitAvailable::start("h", "/20160918/vcns/v".to_string(), "VCN");
    assert_eq!(line(&call), "GET /20160918/vcns/v");
    assert_eq!(call.host, "h");
    let wait = match wait.wait_available(Ok(json("{\"lifecycleState\":\"PROVISIONING\"}"))) {
        Turn::Go { state, after, call } => {
            assert_eq!(after, 5);
            assert_eq!(line(&call), "GET /20160918/vcns/v");
            state
        }
        _ => panic!(),
    };
    match wait.wait_available(Ok(json("{\"lifecycleState\":\"AVAILABLE\",\"id\":\"v\"}"))) {
        Turn::Done(v) => assert_eq!(get_str_or_empty(&v, "id"), "v"),
        _ => panic!(),
    }
}

#[test]
fn waits_end_when_the_resource_is_lost() {
    for state in ["TERMINATED", "FAILED"] {
        let (wait, _) = WaitAvailable::start("h", "/p".to_string(), "IGW");
        match wait.wait_available(Ok(json(&format!("{{\"lifecycleState\":\"{}\"}}", state)))) {
            Turn::Stop { after: 0, error } => {
                assert_eq!(error, ApiError::Other("IGW reached failed state".to_string()))
            }
            _ => panic!(),
        }
    }
    let (wait, _) = WaitAvailable::start("h", "/p".to_string(), "IGW");
    match wait.wait_available(Err(down())) {
        Turn::Stop { after: 0, error } => assert_eq!(error, down()),
        _ => panic!(),
    }
}

#[test]
fn waits_are_given_up_on_after_a_while() {
    let (mut wait, _) = WaitAvailable::start("h", "/p".to_string(), "subnet");
    for _ in 0..119 {
        wait = match wait.wait_available(Ok(json("{}"))) {
            Turn::Go { state, .. } => state,
            _ => panic!(),
        };
    }
    match wait.wait_available(Ok(json("{}"))) {
        Turn::Stop { after: 5, error } => assert_eq!(
            error,
            ApiError::Other("timed out waiting for subnet to be AVAILABLE".to_string())
        ),
        _ => panic!(),
    }
}

#[test]
fn searches_take_the_first_public_subnet() {
    let (search, call) = NetworkSearch::start("h", "c d");
    assert_eq!(line(&call), "GET /20160918/vcns?compartmentId=c%20d");
    let vcns = "[{\"id\":\"a\",\"lifecycleState\":\"TERMINATED\"},
        {\"id\":\"b\",\"lifecycleState\":\"AVAILABLE\"},
        {\"id\":\"c\",\"lifecycleState\":\"AVAILABLE\",\"displayName\":\"net\"}]";
    let search = match search.find_existing_network(Ok(json(vcns))) {
        Turn::Go { state, after: 0, call } => {
            assert_eq!(line(&call), "GET /20160918/subnets?compartmentId=c%20d&vcnId=b");
            state
        }
        _ => panic!(),
    };
    let private = "[{\"lifecycleState\":\"AVAILABLE\"},
        {\"lifecycleState\":\"AVAILABLE\",\"prohibitPublicIpOnVnic\":true},
        {\"lifecycleState\":\"PROVISIONING\",\"prohibitPublicIpOnVnic\":false}]";
    let search = match search.find_existing_network(Ok(json(private))) {
        Turn::Go { state, after: 0, call } => {
            assert_eq!(line(&call), "GET /20160918/subnets?compartmentId=c%20d&vcnId=c");
            state
        }
        _ => panic!(),
    };
    let public = "[{\"id\":\"x\"},
        {\"id\":\"s\",\"lifecycleState\":\"AVAILABLE\",\"prohibitPublicIpOnVnic\":false},
        {\"id\":\"t\",\"lifecycleState\":\"AVAILABLE\",\"prohibitPublicIpOnVnic\":false}]";
    match search.find_existing_network(Ok(json(public))) {
        Turn::Done(Found::Network { vcn, subnet }) => {
            assert_eq!(get_str_or_empty(&vcn, "displayName"), "net");
            assert_eq!(get_str_or_empty(&subnet, "id"), "s");
        }
        _ => panic!(),
    }
}

#[test]
fn searches_may_bring_nothing() {
    for vcns in ["[]", "{}", "[{\"lifecycleState\":\"PROVISIONING\"}]"] {
        let (search, _) = NetworkSearch::start("h", "c");
        match search.find_existing_network(Ok(json(vcns))) {
            Turn::Done(found) => assert_eq!(found, Found::Nothing),
            _ => panic!(),
        }
    }
    let (search, _) = NetworkSearch::start("h", "c");
    match search.find_existing_network(Err(down())) {
        Turn::Stop { after: 0, error } => assert_eq!(error, down()),
        _ => panic!(),
    }
}

/// Takes the setup through some answers, and gives the calls as lines.
fn set_up(answers: Vec<&str>) -> (Vec<String>, Vec<u64>, Option<Result<Json, ApiError>>) {
    set_up_of("10.1.0.0/16", "10.1.0.0/24", answers)
}

fn set_up_of(
    vcn_cidr: &str,
    subnet_cidr: &str,
    answers: Vec<&str>,
) -> (Vec<String>, Vec<u64>, Option<Result<Json, ApiError>>) {
    let (mut setup, call) = NetworkSetup::start("h", "c", vcn_cidr, subnet_cidr);
    let mut lines = vec![line(&call)];
    let mut rests = vec![];
    for answer in answers {
        match setup.create_network(Ok(json(answer))) {
            Turn::Go { state, after, call } => {
                rests.push(after);
                let mut text = line(&call);
                if call.body.is_some() {
                    text = format!("{} {}", text, body(call));
                }
                lines.push(text);
                setup = state;
            }
            Turn::Done(v) => return (lines, rests, Some(Ok(v))),
            Turn::Stop { error, .. } => return (lines, rests, Some(Err(error))),
        }
    }
    (lines, rests, None)
}

#[test]
fn networks_are_made_from_scratch() {
    let (lines, rests, end) = set_up(vec![
        "[]",
        "{\"id\":\"v\"}",
        "{\"lifecycleState\":\"PROVISIONING\"}",
        "{\"lifecycleState\":\"AVAILABLE\",\"defaultRouteTableId\":\"r\"}",
        "{\"id\":\"g\"}",
        "{\"lifecycleState\":\"AVAILABLE\"}",
        "{\"routeRules\":[{\"destination\":\"10.9.0.0/16\"}]}",
        "{}",
        "[]",
        "{\"id\":\"s\"}",
        "{\"lifecycleState\":\"AVAILABLE\",\"id\":\"s\"}",
    ]);
    assert_eq!(
        lines,
        vec![
            "GET /20160918/vcns?compartmentId=c&displayName=free-arm-vcn",
            "POST /20160918/vcns + {\"cidrBlock\":\"10.1.0.0/16\",\"compartmentId\":\"c\",\"displayName\":\"free-arm-vcn\"}",
            "GET /20160918/vcns/v",
            "GET /20160918/vcns/v",
            "POST /20160918/internetGateways + {\"compartmentId\":\"c\",\"displayName\":\"free-arm-igw\",\"isEnabled\":true,\"vcnId\":\"v\"}",
            "GET /20160918/internetGateways/g",
            "GET /20160918/routeTables/r",
            "PUT /20160918/routeTables/r + {\"routeRules\":[{\"destination\":\"10.9.0.0/16\"},{\"destination\":\"0.0.0.0/0\",\"destinationType\":\"CIDR_BLOCK\",\"networkEntityId\":\"g\"}]}",
            "GET /20160918/subnets?compartmentId=c&vcnId=v",
            "POST /20160918/subnets + {\"cidrBlock\":\"10.1.0.0/24\",\"compartmentId\":\"c\",\"displayName\":\"free-arm-subnet\",\"prohibitPublicIpOnVnic\":false,\"vcnId\":\"v\"}",
            "GET /20160918/subnets/s",
        ]
    );
    assert_eq!(rests, vec![0, 0, 5, 0, 0, 0, 0, 0, 0, 0]);
    match end {
        Some(Ok(subnet)) => assert_eq!(get_str_or_empty(&subnet, "id"), "s"),
        _ => panic!(),
    }
}

#[test]
fn networks_of_the_name_are_used_again() {
    let (lines, _, end) = set_up(vec![
        "[{\"id\":\"old\",\"lifecycleState\":\"TERMINATED\"},{\"id\":\"v\",\"lifecycleState\":\"AVAILABLE\"}]",
        "[{\"id\":\"s\",\"lifecycleState\":\"AVAILABLE\",\"prohibitPublicIpOnVnic\":false}]",
    ]);
    assert_eq!(
        lines,
        vec![
            "GET /20160918/vcns?compartmentId=c&displayName=free-arm-vcn",
            "GET /20160918/subnets?compartmentId=c&vcnId=v",
        ]
    );
    match end {
        Some(Ok(subnet)) => assert_eq!(get_str_or_empty(&subnet, "id"), "s"),
        _ => panic!(),
    }
}

#[test]
fn ranges_are_not_used_for_a_network_that_is_there() {
    let answers = vec![
        "[{\"id\":\"v\",\"lifecycleState\":\"AVAILABLE\"}]",
        "[{\"id\":\"p\",\"lifecycleState\":\"AVAILABLE\",\"prohibitPublicIpOnVnic\":true}]",
        "{\"id\":\"s\"}",
        "{\"lifecycleState\":\"AVAILABLE\",\"id\":\"s\"}",
    ];
    for (vcn_cidr, subnet_cidr) in
        [("10.1.0.0/16", "10.1.0.0/24"), ("172.16.0.0/16", "172.16.9.0/24"), ("", "")]
    {
        let (lines, rests, end) = set_up_of(vcn_cidr, subnet_cidr, answers.clone());
        assert_eq!(
            lines,
            vec![
                "GET /20160918/vcns?compartmentId=c&displayName=free-arm-vcn",
                "GET /20160918/subnets?compartmentId=c&vcnId=v",
                "POST /20160918/subnets + {\"cidrBlock\":\"10.0.0.0/24\",\"compartmentId\":\"c\",\"displayName\":\"free-arm-subnet\",\"prohibitPublicIpOnVnic\":false,\"vcnId\":\"v\"}",
                "GET /20160918/subnets/s",
            ]
        );
        assert_eq!(rests, vec![0, 0, 0]);
        match end {
            Some(Ok(subnet)) => assert_eq!(get_str_or_empty(&subnet, "id"), "s"),
            _ => panic!(),
        }
    }
    assert_eq!(range_of_subnet("10.1.0.0/24", true), "10.1.0.0/24");
    assert_eq!(range_of_subnet("10.1.0.0/24", false), "10.0.0.0/24");
}

#[test]
fn networks_without_an_id_are_made_anew() {
    let (lines, _, _) = set_up(vec!["[{\"lifecycleState\":\"AVAILABLE\"}]"]);
    assert!(lines[1].starts_with("POST /20160918/vcns +"));
}

#[test]
fn making_a_network_can_fail() {
    let (_, _, end) =
        set_up(vec!["[]", "{\"id\":\"v\"}", "{\"lifecycleState\":\"TERMINATED\"}"]);
    assert_eq!(end, Some(Err(ApiError::Other("VCN reached failed state".to_string()))));
    let (setup, _) = NetworkSetup::start("h", "c", "10.1.0.0/16", "10.1.0.0/24");
    match setup.create_network(Err(down())) {
        Turn::Stop { after: 0, error } => assert_eq!(error, down()),
        _ => panic!(),
    }
}
