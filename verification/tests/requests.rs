use base64::Engine;
use oci_free_tier_arm::config::OciConfig;
use oci_free_tier_arm::crypto::HTTP_DATE_END;
use oci_free_tier_arm::error::ApiError;
use oci_free_tier_arm::flow::{get_call, send_call, Query};
use oci_free_tier_arm::json::{json_integer, json_text, Fields, Json};
use oci_free_tier_arm::request::{
    extract_message, make_request, path_and_query, pct_encode, read_response, ApiCall, HttpRequest,
};
use oci_free_tier_arm::signer::{signing_text, trim_key, OciSigner};
use rsa::pkcs1::EncodeRsaPrivateKey;
use rsa::pkcs8::{EncodePrivateKey, LineEnding};
use rsa::rand_core::{CryptoRng, RngCore};
use rsa::{Pkcs1v15Sign, RsaPrivateKey, RsaPublicKey};
use sha2::{Digest, Sha256};

/// Bytes from a seed, so that a test makes the same key on every run.
struct Seeded(u64);

impl RngCore for Seeded {
    fn next_u32(&mut self) -> u32 {
        (self.next_u64() >> 32) as u32
    }

    fn next_u64(&mut self) -> u64 {
        self.0 ^= self.0 << 13;
        self.0 ^= self.0 >> 7;
        self.0 ^= self.0 << 17;
        self.0.wrapping_mul(0x2545f4914f6cdd1d)
    }

    fn fill_bytes(&mut self, dest: &mut [u8]) {
        for byte in dest {
            *byte = (self.next_u64() >> 56) as u8;
        }
    }

    fn try_fill_bytes(&mut self, dest: &mut [u8]) -> Result<(), rsa::rand_core::Error> {
        self.fill_bytes(dest);
        Ok(())
    }
}

impl CryptoRng for Seeded {}

fn new_key(bits: usize) -> RsaPrivateKey {
    RsaPrivateKey::new(&mut Seeded(88172645463325252), bits).unwrap()
}

fn pkcs1(key: &RsaPrivateKey) -> String {
    key.to_pkcs1_pem(LineEnding::LF).unwrap().to_string()
}

fn pkcs8(key: &RsaPrivateKey) -> String {
    key.to_pkcs8_pem(LineEnding::LF).unwrap().to_string()
}

/// A text with the outer form of a key.
const FRAMED: &str = "-----BEGIN NOTE-----\nAAAA\n-----END NOTE-----";

const DATE: &str = "Fri, 15 May 2015 15:34:21 GMT";
const NOW: u64 = 1431704061;
const HOST: &str = "iaas.eu-frankfurt-1.oraclecloud.com";

const POST_DIGEST: &str = "ICHd+BQaCV38wRLVPcfZaGanBUH/0L9p+lgV/FQVrUo=";

fn config() -> OciConfig {
    OciConfig {
        user: "u".to_string(),
        fingerprint: "f".to_string(),
        key_file: "/keys/api.pem".to_string(),
        tenancy: "t".to_string(),
        region: "eu-frankfurt-1".to_string(),
    }
}

fn signer(pem: &str) -> OciSigner {
    match OciSigner::new(&config(), pem) {
        Ok(signer) => signer,
        Err(e) => panic!("{}", e),
    }
}

fn header(request: &HttpRequest, name: &str) -> Vec<String> {
    request.headers.iter().filter(|h| h.0 == name).map(|h| h.1.clone()).collect()
}

fn vcns_call() -> ApiCall {
    get_call(
        HOST,
        "/20160918/vcns".to_string(),
        Query::new().with("compartmentId", "ocid1:root"),
    )
}

/// Asserts that a request carries the authorization for `key` over `signed`,
/// with the given names of headers.
fn assert_signed(request: &HttpRequest, key: &RsaPrivateKey, names: &str, signed: &str) {
    let values = header(request, "authorization");
    assert_eq!(values.len(), 1);
    let start = format!(
        "Signature version=\"1\",headers=\"{}\",keyId=\"t/u/f\",algorithm=\"rsa-sha256\",signature=\"",
        names
    );
    let signature = values[0].strip_prefix(start.as_str()).unwrap().strip_suffix('"').unwrap();
    let bytes = base64::engine::general_purpose::STANDARD.decode(signature).unwrap();
    let public = RsaPublicKey::from(key);
    let scheme = || Pkcs1v15Sign::new::<Sha256>();
    assert!(public.verify(scheme(), &Sha256::digest(signed), &bytes).is_ok());
    let other = format!("{} ", signed);
    assert!(public.verify(scheme(), &Sha256::digest(other), &bytes).is_err());
}

#[test]
fn pct_encode_encodes_space_as_20_and_keeps_unreserved() {
    assert_eq!(pct_encode("Canonical Ubuntu"), "Canonical%20Ubuntu");
    assert_eq!(pct_encode("22.04"), "22.04");
    assert_eq!(pct_encode("a_b-c.d~e"), "a_b-c.d~e");
    assert_eq!(pct_encode("dWCX:AP-KULAI-2-AD-1"), "dWCX%3AAP-KULAI-2-AD-1");
}

#[test]
fn pct_encode_writes_bytes_in_upper_case_hex() {
    assert_eq!(pct_encode(""), "");
    assert_eq!(pct_encode("é/\u{1f600}"), "%C3%A9%2F%F0%9F%98%80");
    assert_eq!(pct_encode("a+b&c=d%"), "a%2Bb%26c%3Dd%25");
}

#[test]
fn pct_encoding_can_be_undone_and_is_safe() {
    for s in ["", "a b", "100% é&=?/", "\u{0}\u{7f}", "AZaz09-._~"] {
        let encoded = pct_encode(s);
        let mut bytes: Vec<u8> = vec![];
        let chars: Vec<char> = encoded.chars().collect();
        let mut i = 0;
        while i < chars.len() {
            if chars[i] == '%' {
                let hex: String = chars[i + 1..i + 3].iter().collect();
                bytes.push(u8::from_str_radix(&hex, 16).unwrap());
                i += 3;
            } else {
                assert!(chars[i].is_ascii_alphanumeric() || "-._~".contains(chars[i]));
                bytes.push(chars[i] as u8);
                i += 1;
            }
        }
        assert_eq!(String::from_utf8(bytes).unwrap(), s);
    }
}

#[test]
fn extract_message_reads_oci_error_body() {
    assert_eq!(
        extract_message(r#"{"code":"LimitExceeded","message":"Out of host capacity"}"#),
        "Out of host capacity"
    );
    assert_eq!(extract_message("not json"), "not json");
}

#[test]
fn extract_message_keeps_bodies_without_a_message() {
    assert_eq!(extract_message("{\"message\":5}"), "{\"message\":5}");
    assert_eq!(extract_message("[1]"), "[1]");
    assert_eq!(extract_message(""), "");
    assert_eq!(extract_message("{\"message\":\"a\",\"message\":\"b\"}"), "b");
}

#[test]
fn retryable_classification() {
    let cap = ApiError::Http { status: 500, message: "Out of host capacity".into() };
    assert!(cap.is_retryable());
    assert!(!cap.is_non_retryable());

    let rl = ApiError::Http { status: 429, message: "Too many requests".into() };
    assert!(rl.is_retryable());
    assert!(rl.is_rate_limited());

    let auth = ApiError::Http { status: 401, message: "NotAuthenticated".into() };
    assert!(auth.is_non_retryable());
    assert!(!auth.is_retryable());
}

#[test]
fn classification_follows_status_and_message() {
    let http = |status: u16, message: &str| ApiError::Http { status, message: message.to_string() };
    for status in [502, 503, 504] {
        assert!(http(status, "").is_retryable());
        assert!(!http(status, "").is_non_retryable());
    }
    for status in [400, 401, 403, 404, 409] {
        assert!(http(status, "no").is_non_retryable());
        assert!(!http(status, "no").is_retryable());
        assert!(!http(status, "OUT OF HOST CAPACITY").is_non_retryable());
        assert!(!http(status, "OUT OF HOST CAPACITY").is_retryable());
    }
    assert!(http(500, "InternalError").is_retryable());
    assert!(http(500, "TIMEOUT").is_retryable());
    assert!(http(500, "Temporary").is_retryable());
    assert!(!http(500, "strange").is_retryable());
    assert!(!http(500, "strange").is_non_retryable());
    assert!(http(503, "LimitExceeded").is_non_retryable());
    assert!(http(503, "LimitExceeded").is_retryable());
    assert!(!http(500, "LimitExceeded: out of host capacity").is_non_retryable());
    assert!(ApiError::Transport("connection reset".to_string()).is_retryable());
    assert!(!ApiError::Other("connection reset".to_string()).is_retryable());
    assert!(ApiError::Other("LimitExceeded".to_string()).is_non_retryable());
    assert_eq!(ApiError::Transport("x".to_string()).status(), 0);
    assert_eq!(ApiError::Other("x".to_string()).message(), "x");
    assert_eq!(http(418, "teapot").status(), 418);
    assert_eq!(http(418, "teapot").message(), "teapot");
    assert!(!http(428, "").is_rate_limited());
}

#[test]
fn notices_are_found_among_other_letters() {
    let http = |status: u16, message: &str| ApiError::Http { status, message: message.to_string() };
    for message in [
        "Größe: OUT of Host capacity — später",
        "ÀÉΣOut of host capacityΣİ",
        "\u{212a}Out Of Host Capacity",
    ] {
        assert!(http(500, message).is_retryable());
        assert!(!http(500, message).is_non_retryable());
        assert!(!http(404, message).is_non_retryable());
    }
    assert!(http(500, "É InTernal Ü").is_retryable());
    assert!(http(500, "ÉTIMEOUTÜ").is_retryable());
    assert!(http(500, "Σ Temporary").is_retryable());
    assert!(http(500, "ÜLimitExceededÜ").is_non_retryable());
    assert!(!http(500, "Größe").is_retryable());
}

#[test]
fn path_and_query_joins_pairs() {
    let pair = |k: &str, v: &str| (k.to_string(), v.to_string());
    assert_eq!(path_and_query("/p", &vec![]), "/p");
    assert_eq!(path_and_query("/p", &vec![pair("a", "b c")]), "/p?a=b%20c");
    assert_eq!(path_and_query("/p", &vec![pair("a", ""), pair("&", "=")]), "/p?a=&%26=%3D");
    assert_eq!(path_and_query("/p", &vec![pair("", "")]), "/p?=");
}

#[test]
fn key_is_trimmed_to_its_end_line() {
    let junk = format!("\u{feff}\u{feff}{}\nOCI_API_KEY", FRAMED);
    assert_eq!(trim_key(&junk), FRAMED);
    assert_eq!(trim_key(FRAMED), FRAMED);
    assert_eq!(trim_key("no marker\nat all\n"), "no marker\nat all\n");
    assert_eq!(trim_key("-----END a\n-----END b\nc"), "-----END a\n-----END b");
    assert_eq!(trim_key("a\u{feff}-----END"), "a\u{feff}-----END");
}

#[test]
fn signing_text_has_a_line_for_each_header() {
    assert_eq!(
        signing_text(DATE, "get", "/p?q=1", "h", None),
        format!("date: {}\n(request-target): get /p?q=1\nhost: h", DATE)
    );
    assert_eq!(
        signing_text(DATE, "post", "/p", "h", Some(&b"{\"n\":5,\"name\":\"a b\"}".to_vec())),
        format!(
            "date: {}\n(request-target): post /p\nhost: h\ncontent-length: 20\ncontent-type: application/json\nx-content-sha256: {}",
            DATE, POST_DIGEST
        )
    );
}

#[test]
fn get_requests_are_signed() {
    let key = new_key(768);
    for pem in [
        pkcs1(&key),
        pkcs8(&key),
        format!("{}OCI_API_KEY\n", pkcs8(&key)),
        format!("\u{feff}{}OCI_API_KEY", pkcs1(&key)),
    ] {
        let request = match make_request(&signer(&pem), vcns_call(), NOW) {
            Ok(request) => request,
            Err(e) => panic!("{}", e.message()),
        };
        assert_eq!(request.method, "GET");
        assert_eq!(
            request.url,
            "https://iaas.eu-frankfurt-1.oraclecloud.com/20160918/vcns?compartmentId=ocid1%3Aroot"
        );
        assert_eq!(header(&request, "date"), vec![DATE]);
        assert_eq!(header(&request, "user-agent"), vec!["oci-free-tier-arm/1.0"]);
        assert_signed(
            &request,
            &key,
            "date (request-target) host",
            "date: Fri, 15 May 2015 15:34:21 GMT\n(request-target): get /20160918/vcns?compartmentId=ocid1%3Aroot\nhost: iaas.eu-frankfurt-1.oraclecloud.com",
        );
        assert_eq!(request.headers.len(), 3);
        assert_eq!(request.body, None);
    }
}

#[test]
fn post_requests_are_signed_with_their_body() {
    let body = Fields::new().with("name", json_text("a b")).with("n", json_integer(5)).object();
    let mut call = send_call("POST", HOST, "/20160918/vcns".to_string(), body);
    call.headers = Query::new().with("opc-retry-token", "1f").pairs;
    let key = new_key(768);
    let request = match make_request(&signer(&pkcs8(&key)), call, NOW) {
        Ok(request) => request,
        Err(e) => panic!("{}", e.message()),
    };
    assert_eq!(request.body, Some(b"{\"n\":5,\"name\":\"a b\"}".to_vec()));
    let names: Vec<&str> = request.headers.iter().map(|h| h.0.as_str()).collect();
    assert_eq!(
        names,
        vec![
            "date",
            "authorization",
            "user-agent",
            "content-type",
            "content-length",
            "x-content-sha256",
            "opc-retry-token"
        ]
    );
    assert_eq!(header(&request, "content-type"), vec!["application/json"]);
    assert_eq!(header(&request, "content-length"), vec!["20"]);
    assert_eq!(header(&request, "x-content-sha256"), vec![POST_DIGEST]);
    assert_eq!(header(&request, "opc-retry-token"), vec!["1f"]);
    assert_signed(
        &request,
        &key,
        "date (request-target) host content-length content-type x-content-sha256",
        &format!(
            "date: Fri, 15 May 2015 15:34:21 GMT\n(request-target): post /20160918/vcns\nhost: iaas.eu-frankfurt-1.oraclecloud.com\ncontent-length: 20\ncontent-type: application/json\nx-content-sha256: {}",
            POST_DIGEST
        ),
    );
}

#[test]
fn other_methods_are_refused() {
    let signer = signer(&pkcs8(&new_key(768)));
    let mut call = vcns_call();
    call.method = "POST".to_string();
    match make_request(&signer, call, NOW) {
        Err(ApiError::Other(m)) => assert_eq!(m, "POST without body not supported"),
        _ => panic!(),
    }
    let call = send_call("PATCH", HOST, "/p".to_string(), Json::Null);
    match make_request(&signer, call, NOW) {
        Err(ApiError::Other(m)) => assert_eq!(m, "PATCH with body not supported"),
        _ => panic!(),
    }
    let mut call = vcns_call();
    call.method = "DELETE".to_string();
    assert!(make_request(&signer, call, HTTP_DATE_END - 1).is_ok());
    let call = send_call("PUT", HOST, "/p".to_string(), Json::Null);
    match make_request(&signer, call, 0) {
        Ok(request) => {
            assert_eq!(header(&request, "date"), vec!["Thu, 01 Jan 1970 00:00:00 GMT"]);
            assert_eq!(request.body, Some(b"null".to_vec()));
        }
        Err(e) => panic!("{}", e.message()),
    }
}

#[test]
fn short_keys_cannot_sign() {
    match make_request(&signer(&pkcs1(&new_key(256))), vcns_call(), NOW) {
        Err(ApiError::Other(m)) => assert!(m.starts_with("signing failed: "), "{}", m),
        _ => panic!(),
    }
}

#[test]
fn bad_keys_are_refused() {
    match OciSigner::new(&config(), "nonsense") {
        Err(e) => assert!(e.starts_with("cannot parse private key /keys/api.pem: "), "{}", e),
        Ok(_) => panic!(),
    }
}

#[test]
fn responses_are_judged_by_their_status() {
    match read_response(200, "{\"id\":\"x\"}") {
        Ok(Json::Object(fields)) => {
            assert_eq!(fields, vec![("id".to_string(), Json::Text("x".to_string()))])
        }
        _ => panic!(),
    }
    assert_eq!(read_response(299, "null"), Ok(Json::Null));
    match read_response(204, "") {
        Err(ApiError::Other(m)) => assert!(m.starts_with("invalid JSON from OCI: "), "{}", m),
        _ => panic!(),
    }
    for status in [199, 300, 404, 500] {
        match read_response(status, "{\"message\":\"why\"}") {
            Err(ApiError::Http { status: s, message }) => {
                assert_eq!(s, status);
                assert_eq!(message, "why");
            }
            _ => panic!(),
        }
    }
    assert_eq!(
        read_response(503, "down"),
        Err(ApiError::Http { status: 503, message: "down".to_string() })
    );
}
