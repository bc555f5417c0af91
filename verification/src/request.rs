//! Requests to the service and what it answers.

use vstd::prelude::*;
use vstd::utf8::encode_utf8;

use crate::crypto::{base64_text, http_date, rsa_signature, sha256, HTTP_DATE_END};
use crate::error::{is_plain, lowercase, plain_lowercase, ApiError, ErrorView};
use crate::json::{get_str, json_bytes, parse_json, parsed, text_field, to_bytes, Json, JsonTree};
use crate::signer::{
    authorization, signed_lines, signing_string, OciSigner, SignedLine, SignedRequest,
};
use crate::text::{
    decimal, join, joined, law_joining_puts_separators_between, lemma_views_push, same_text, views,
};

verus! {

/// The name that the provisioner goes by.
pub open spec fn user_agent() -> Seq<char> {
    "oci-free-tier-arm/1.0"@
}

/// A request to the service, before it is signed.
pub struct ApiCall {
    pub method: String,
    pub host: String,
    pub path: String,
    pub query: Vec<(String, String)>,
    pub body: Option<Json>,
    pub headers: Vec<(String, String)>,
}

/// What a request to the service asks for.
#[verifier::ext_equal]
pub struct CallView {
    pub method: Seq<char>,
    pub host: Seq<char>,
    pub path: Seq<char>,
    pub query: Seq<(Seq<char>, Seq<char>)>,
    pub body: Option<JsonTree>,
    pub headers: Seq<(Seq<char>, Seq<char>)>,
}

/// The views of some names and values.
pub open spec fn pair_views(pairs: Seq<(String, String)>) -> Seq<(Seq<char>, Seq<char>)> {
    Seq::new(pairs.len(), |i: int| (pairs[i].0@, pairs[i].1@))
}

/// The view of an optional JSON value.
pub open spec fn opt_json(body: Option<Json>) -> Option<JsonTree> {
    match body {
        Some(j) => Some(j@),
        None => None,
    }
}

impl View for ApiCall {
    type V = CallView;

    open spec fn view(&self) -> CallView {
        CallView {
            method: self.method@,
            host: self.host@,
            path: self.path@,
            query: pair_views(self.query@),
            body: opt_json(self.body),
            headers: pair_views(self.headers@),
        }
    }
}

/// A request as it is sent.
#[derive(Debug, PartialEq)]
pub struct HttpRequest {
    pub method: String,
    pub url: String,
    pub headers: Vec<(String, String)>,
    pub body: Option<Vec<u8>>,
}

/// Whether a byte stands for itself in a URL.
pub open spec fn is_unreserved(b: u8) -> bool {
    ||| 65 <= b <= 90
    ||| 97 <= b <= 122
    ||| 48 <= b <= 57
    ||| b == 45
    ||| b == 46
    ||| b == 95
    ||| b == 126
}

/// The upper-case hexadecimal digit `d`.
pub open spec fn upper_hex(d: int) -> char {
    if d < 10 {
        (48 + d) as char
    } else {
        (55 + d) as char
    }
}

/// A byte as it stands in a URL.
pub open spec fn pct_byte(b: u8) -> Seq<char> {
    if is_unreserved(b) {
        seq![b as char]
    } else {
        seq!['%', upper_hex(b as int / 16), upper_hex(b as int % 16)]
    }
}

/// Bytes as they stand in a URL.
pub open spec fn pct(bytes: Seq<u8>) -> Seq<char>
    decreases bytes.len(),
{
    if bytes.len() == 0 {
        Seq::empty()
    } else {
        pct_byte(bytes[0]) + pct(bytes.drop_first())
    }
}

fn upper_hex_char(d: u8) -> (c: char)
    requires
        d < 16,
    ensures
        c == upper_hex(d as int),
{
    if d < 10 {
        (48u8 + d) as char
    } else {
        (55u8 + d) as char
    }
}

/// `s` as it stands in a URL: each byte that is not a letter, a digit or one of
/// `-._~` as a percent sign and two hexadecimal digits.
pub fn pct_encode(s: &str) -> (out: String)
    ensures
        out@ == pct(encode_utf8(s@)),
{
    let bytes: &[u8] = s.as_bytes();
    let mut out: String = String::new();
    let mut i: usize = 0;
    assert(bytes@.skip(0) =~= bytes@);
    assert(out@ + pct(bytes@) =~= pct(bytes@));
    while i < bytes.len()
        invariant
            i <= bytes@.len(),
            out@ + pct(bytes@.skip(i as int)) == pct(bytes@),
        decreases bytes@.len() - i,
    {
        let b: u8 = bytes[i];
        let ghost before = out@;
        let ghost rest = bytes@.skip(i as int);
        assert(rest.drop_first() =~= bytes@.skip(i + 1));
        if (65 <= b && b <= 90) || (97 <= b && b <= 122) || (48 <= b && b <= 57) || b == 45 || b
            == 46 || b == 95 || b == 126 {
            out.push(b as char);
        } else {
            out.push('%');
            out.push(upper_hex_char(b / 16));
            out.push(upper_hex_char(b % 16));
        }
        assert(out@ =~= before + pct_byte(b));
        assert(out@ + pct(bytes@.skip(i + 1)) =~= before + pct(rest));
        i = i + 1;
    }
    assert(out@ + pct(bytes@.skip(i as int)) =~= out@);
    out
}

/// The value of an upper-case hexadecimal digit.
pub open spec fn hex_value(c: char) -> int {
    if c as int <= 57 {
        c as int - 48
    } else {
        c as int - 55
    }
}

/// The bytes that a text in a URL stands for.
pub open spec fn pct_decoded(s: Seq<char>) -> Seq<u8>
    decreases s.len(),
{
    if s.len() == 0 {
        Seq::empty()
    } else if s[0] == '%' && s.len() >= 3 {
        seq![(16 * hex_value(s[1]) + hex_value(s[2])) as u8] + pct_decoded(s.skip(3))
    } else {
        seq![s[0] as u8] + pct_decoded(s.skip(1))
    }
}

/// A text can be read back from how it stands in a URL.
pub proof fn law_pct_encoding_is_reversible(bytes: Seq<u8>)
    ensures
        pct_decoded(pct(bytes)) == bytes,
    decreases bytes.len(),
{
    if bytes.len() > 0 {
        let b = bytes[0];
        let rest = bytes.drop_first();
        law_pct_encoding_is_reversible(rest);
        let s = pct(bytes);
        if is_unreserved(b) {
            assert(s.skip(1) =~= pct(rest));
            assert(s[0] == b as char);
        } else {
            assert(s.skip(3) =~= pct(rest));
            assert(s[0] == '%');
        }
        assert(pct_decoded(s) =~= bytes);
    }
}

/// In a URL nothing stands for a text but letters, digits, `-._~` and percent
/// signs: no separator of a query or a path.
pub proof fn law_pct_encoding_is_safe(bytes: Seq<u8>, i: int)
    requires
        0 <= i < pct(bytes).len(),
    ensures
        pct(bytes)[i] == '%' || is_unreserved(pct(bytes)[i] as u8),
        pct(bytes)[i] != '&',
        pct(bytes)[i] != '=',
        pct(bytes)[i] != '?',
        pct(bytes)[i] != '/',
        pct(bytes)[i] != ' ',
    decreases bytes.len(),
{
    if bytes.len() > 0 {
        let head = pct_byte(bytes[0]);
        if i < head.len() {
            assert(pct(bytes)[i] == head[i]);
        } else {
            law_pct_encoding_is_safe(bytes.drop_first(), i - head.len());
            assert(pct(bytes)[i] == pct(bytes.drop_first())[i - head.len()]);
        }
    }
}

/// A text of letters, digits and `-._~` stands for itself in a URL.
pub proof fn law_unreserved_text_is_kept(bytes: Seq<u8>)
    requires
        forall|i: int| 0 <= i < bytes.len() ==> is_unreserved(#[trigger] bytes[i]),
    ensures
        pct(bytes) == Seq::new(bytes.len(), |i: int| bytes[i] as char),
    decreases bytes.len(),
{
    if bytes.len() > 0 {
        assert(is_unreserved(bytes[0]));
        let rest = bytes.drop_first();
        assert forall|i: int| 0 <= i < rest.len() implies is_unreserved(#[trigger] rest[i]) by {
            assert(rest[i] == bytes[i + 1]);
        }
        law_unreserved_text_is_kept(rest);
    }
    assert(pct(bytes) =~= Seq::new(bytes.len(), |i: int| bytes[i] as char));
}

/// One name and value of a query.
pub open spec fn query_part(pair: (Seq<char>, Seq<char>)) -> Seq<char> {
    pct(encode_utf8(pair.0)) + "="@ + pct(encode_utf8(pair.1))
}

/// The names and values of a query.
pub open spec fn query_parts(query: Seq<(Seq<char>, Seq<char>)>) -> Seq<Seq<char>> {
    Seq::new(query.len(), |i: int| query_part(query[i]))
}

/// A path with its query.
pub open spec fn target(path: Seq<char>, query: Seq<(Seq<char>, Seq<char>)>) -> Seq<char> {
    if query.len() == 0 {
        path
    } else {
        path + "?"@ + join(query_parts(query), "&"@)
    }
}

/// A path with its query.
pub fn path_and_query(path: &str, query: &Vec<(String, String)>) -> (s: String)
    ensures
        s@ == target(path@, pair_views(query@)),
{
    let ghost all = pair_views(query@);
    if query.len() == 0 {
        return path.to_owned();
    }
    let mut parts: Vec<String> = Vec::new();
    let mut i: usize = 0;
    assert(views(parts@) =~= query_parts(all).take(0));
    while i < query.len()
        invariant
            i <= query@.len(),
            all == pair_views(query@),
            views(parts@) == query_parts(all).take(i as int),
        decreases query@.len() - i,
    {
        let mut part: String = pct_encode(query[i].0.as_str());
        part.append("=");
        part.append(pct_encode(query[i].1.as_str()).as_str());
        proof {
            lemma_views_push(parts@, part);
            assert(part@ =~= query_part(all[i as int]));
            assert(query_parts(all).take(i + 1) =~= query_parts(all).take(i as int).push(part@));
        }
        parts.push(part);
        i = i + 1;
    }
    assert(query_parts(all).take(all.len() as int) =~= query_parts(all));
    let mut s: String = path.to_owned();
    s.append("?");
    s.append(joined(&parts, "&").as_str());
    s
}

/// The methods that requests are made with: two that carry a body and two that
/// do not.
pub open spec fn is_supported(method: Seq<char>, has_body: bool) -> bool {
    if has_body {
        method == "POST"@ || method == "PUT"@
    } else {
        method == "GET"@ || method == "DELETE"@
    }
}

/// The complaint about another method.
pub open spec fn unsupported(method: Seq<char>, has_body: bool) -> Seq<char> {
    if has_body {
        method + " with body not supported"@
    } else {
        method + " without body not supported"@
    }
}

/// The headers of a request: the date, the authorization, the sender, those of
/// the body, and the request's own.
pub open spec fn sent_headers(
    date: Seq<char>,
    authorization: Seq<char>,
    body: Option<Seq<u8>>,
    own: Seq<(Seq<char>, Seq<char>)>,
) -> Seq<(Seq<char>, Seq<char>)> {
    let always = seq![
        ("date"@, date),
        ("authorization"@, authorization),
        ("user-agent"@, user_agent()),
    ];
    match body {
        Some(bytes) => always + seq![
            ("content-type"@, "application/json"@),
            ("content-length"@, decimal(bytes.len())),
            ("x-content-sha256"@, base64_text(sha256(bytes))),
        ] + own,
        None => always + own,
    }
}

/// The text that an option holds, or the one in its place.
pub open spec fn or_text(value: Option<String>, default: Seq<char>) -> Seq<char> {
    match value {
        Some(s) => s@,
        None => default,
    }
}

/// The headers of a request that was signed as `signed`.
pub open spec fn given_headers(
    signed: SignedRequest,
    has_body: bool,
    own: Seq<(Seq<char>, Seq<char>)>,
) -> Seq<(Seq<char>, Seq<char>)> {
    let always = seq![
        ("date"@, signed.date@),
        ("authorization"@, signed.authorization@),
        ("user-agent"@, user_agent()),
    ];
    if has_body {
        always + seq![
            ("content-type"@, or_text(signed.content_type, "application/json"@)),
            ("content-length"@, or_text(signed.content_length, "0"@)),
            ("x-content-sha256"@, or_text(signed.x_content_sha256, ""@)),
        ] + own
    } else {
        always + own
    }
}

/// The view of a body that is sent.
pub open spec fn sent_body(body: Option<Vec<u8>>) -> Option<Seq<u8>> {
    match body {
        Some(bytes) => Some(bytes@),
        None => None,
    }
}

/// The bytes of the body of a call.
pub open spec fn call_body(call: CallView) -> Option<Seq<u8>> {
    match call.body {
        Some(tree) => Some(json_bytes(tree)),
        None => None,
    }
}

/// The headers that the signature of a call covers.
pub open spec fn call_lines(call: CallView, now: u64) -> Seq<SignedLine> {
    signed_lines(
        http_date(now),
        lowercase(call.method),
        target(call.path, call.query),
        call.host,
        call_body(call),
    )
}

impl HttpRequest {
    /// Whether this is the request for `call`, with the given headers and body.
    pub open spec fn sends(
        &self,
        call: CallView,
        headers: Seq<(Seq<char>, Seq<char>)>,
        body: Option<Seq<u8>>,
    ) -> bool {
        &&& self.method@ == call.method
        &&& self.url@ == "https://"@ + call.host + target(call.path, call.query)
        &&& pair_views(self.headers@) == headers
        &&& sent_body(self.body) == body
    }
}

fn put_header(headers: &mut Vec<(String, String)>, name: &str, value: &str)
    ensures
        pair_views(final(headers)@) == pair_views(old(headers)@).push((name@, value@)),
{
    headers.push((name.to_owned(), value.to_owned()));
    assert(pair_views(headers@) =~= pair_views(old(headers)@).push((name@, value@)));
}

/// The text that an option holds, or the one in its place.
fn text_or(value: Option<String>, default: &str) -> (text: String)
    ensures
        text@ == or_text(value, default@),
{
    match value {
        Some(s) => s,
        None => default.to_owned(),
    }
}

/// The request for a call that was signed, or why there is none: the call could
/// not be signed, or its method is none that requests are made with.
pub fn addressed(
    call: ApiCall,
    body: Option<Vec<u8>>,
    signed: Result<SignedRequest, String>,
) -> (request: Result<HttpRequest, ApiError>)
    ensures
        match signed {
            Err(e) => request matches Err(error) && error@ == ErrorView::Other(e@),
            Ok(s) => if is_supported(call@.method, body is Some) {
                request matches Ok(r) && r.sends(
                    call@,
                    given_headers(s, body is Some, call@.headers),
                    sent_body(body),
                )
            } else {
                request matches Err(error) && error@ == ErrorView::Other(
                    unsupported(call@.method, body is Some),
                )
            },
        },
{
    let signed: SignedRequest = match signed {
        Ok(signed) => signed,
        Err(e) => return Err(ApiError::Other(e)),
    };
    let ghost given = signed;
    let supported: bool = match &body {
        Some(_) => same_text(call.method.as_str(), "POST") || same_text(
            call.method.as_str(),
            "PUT",
        ),
        None => same_text(call.method.as_str(), "GET") || same_text(
            call.method.as_str(),
            "DELETE",
        ),
    };
    if !supported {
        let mut complaint: String = call.method.clone();
        match &body {
            Some(_) => complaint.append(" with body not supported"),
            None => complaint.append(" without body not supported"),
        }
        return Err(ApiError::Other(complaint));
    }
    let mut url: String = "https://".to_owned();
    url.append(call.host.as_str());
    url.append(path_and_query(call.path.as_str(), &call.query).as_str());
    let mut headers: Vec<(String, String)> = Vec::new();
    assert(pair_views(headers@) =~= Seq::empty());
    put_header(&mut headers, "date", signed.date.as_str());
    put_header(&mut headers, "authorization", signed.authorization.as_str());
    put_header(&mut headers, "user-agent", "oci-free-tier-arm/1.0");
    match &body {
        Some(_) => {
            let content_type: String = text_or(signed.content_type, "application/json");
            let content_length: String = text_or(signed.content_length, "0");
            let digest: String = text_or(signed.x_content_sha256, "");
            put_header(&mut headers, "content-type", content_type.as_str());
            put_header(&mut headers, "content-length", content_length.as_str());
            put_header(&mut headers, "x-content-sha256", digest.as_str());
        },
        None => {},
    }
    let ghost base = pair_views(headers@);
    let ghost own = pair_views(call.headers@);
    let mut i: usize = 0;
    assert(base + own.take(0) =~= base);
    while i < call.headers.len()
        invariant
            i <= call.headers@.len(),
            own == pair_views(call.headers@),
            pair_views(headers@) == base + own.take(i as int),
        decreases call.headers@.len() - i,
    {
        put_header(&mut headers, call.headers[i].0.as_str(), call.headers[i].1.as_str());
        assert((base + own.take(i as int)).push(own[i as int]) =~= base + own.take(i + 1));
        i = i + 1;
    }
    assert(own.take(own.len() as int) =~= own);
    assert(pair_views(headers@) =~= given_headers(given, body is Some, own));
    Ok(HttpRequest { method: call.method, url, headers, body })
}

/// Signs a call that is made `now`, in seconds since 1970, and makes it ready to
/// send.
pub fn make_request(signer: &OciSigner, call: ApiCall, now: u64) -> (request: Result<
    HttpRequest,
    ApiError,
>)
    requires
        now < HTTP_DATE_END,
    ensures
        match rsa_signature(signer.key, encode_utf8(signing_string(call_lines(call@, now)))) {
            Err(e) => request matches Err(error) && error@ == ErrorView::Other(
                "signing failed: "@ + e,
            ),
            Ok(signature) => if is_supported(call@.method, call@.body is Some) {
                request matches Ok(r) && r.sends(
                    call@,
                    sent_headers(
                        http_date(now),
                        authorization(call_lines(call@, now), signer.key_id(), signature),
                        call_body(call@),
                        call@.headers,
                    ),
                    call_body(call@),
                )
            } else {
                request matches Err(error) && error@ == ErrorView::Other(
                    unsupported(call@.method, call@.body is Some),
                )
            },
        },
        is_plain(call@.method) ==> lowercase(call@.method) == plain_lowercase(call@.method),
{
    let ghost view = call@;
    let target: String = path_and_query(call.path.as_str(), &call.query);
    let ApiCall { method, host, path, query, body, headers } = call;
    let bytes: Option<Vec<u8>> = match body {
        Some(j) => Some(to_bytes(j)),
        None => None,
    };
    let signed: Result<SignedRequest, String> = match &bytes {
        Some(b) => signer.sign(
            method.as_str(),
            host.as_str(),
            target.as_str(),
            Some(b),
            now,
        ),
        None => signer.sign(
            method.as_str(),
            host.as_str(),
            target.as_str(),
            None,
            now,
        ),
    };
    let bare: ApiCall = ApiCall { method, host, path, query, body: None, headers };
    addressed(bare, bytes, signed)
}

/// The message of an error body: that in its field `message`, or all of it.
pub open spec fn message_of(value: Result<JsonTree, Seq<char>>, body: Seq<char>) -> Seq<char> {
    match value {
        Ok(tree) => match text_field(tree, "message"@) {
            Some(message) => message,
            None => body,
        },
        Err(_) => body,
    }
}

/// The view of what a text was read as.
pub open spec fn read_view(value: Result<Json, String>) -> Result<JsonTree, Seq<char>> {
    match value {
        Ok(j) => Ok(j@),
        Err(e) => Err(e@),
    }
}

/// The message of an error body that was read as `value`.
pub fn message_in(value: &Result<Json, String>, body: &str) -> (message: String)
    ensures
        message@ == message_of(read_view(*value), body@),
{
    match value {
        Ok(j) => match get_str(j, "message") {
            Some(message) => message,
            None => body.to_owned(),
        },
        Err(_) => body.to_owned(),
    }
}

/// The message of an error body.
pub fn extract_message(body: &str) -> (message: String)
    ensures
        message@ == message_of(parsed(body@), body@),
{
    message_in(&parse_json(body), body)
}

/// The view of an answer.
pub open spec fn answer_view(answer: Result<Json, ApiError>) -> Result<JsonTree, ErrorView> {
    match answer {
        Ok(j) => Ok(j@),
        Err(e) => Err(e@),
    }
}

/// What an answer of the given status amounts to, its body being read as
/// `value`.
pub open spec fn answer_of(
    status: u16,
    value: Result<JsonTree, Seq<char>>,
    body: Seq<char>,
) -> Result<JsonTree, ErrorView> {
    if 200 <= status < 300 {
        match value {
            Ok(tree) => Ok(tree),
            Err(e) => Err(ErrorView::Other("invalid JSON from OCI: "@ + e)),
        }
    } else {
        Err(ErrorView::Http { status, message: message_of(value, body) })
    }
}

/// What an answer of the given status amounts to, its body being read as
/// `value`.
pub fn judge_response(status: u16, value: Result<Json, String>, body: &str) -> (answer: Result<
    Json,
    ApiError,
>)
    ensures
        answer_view(answer) == answer_of(status, read_view(value), body@),
{
    if 200 <= status && status < 300 {
        match value {
            Ok(j) => Ok(j),
            Err(e) => {
                let mut complaint: String = "invalid JSON from OCI: ".to_owned();
                complaint.append(e.as_str());
                Err(ApiError::Other(complaint))
            },
        }
    } else {
        Err(ApiError::Http { status, message: message_in(&value, body) })
    }
}

/// What an answer of the given status and body amounts to.
pub fn read_response(status: u16, body: &str) -> (answer: Result<Json, ApiError>)
    ensures
        answer_view(answer) == answer_of(status, parsed(body@), body@),
{
    judge_response(status, parse_json(body), body)
}

/// What is signed is what is sent: the signature covers the method, the path
/// with its query and the host of the request, and each other header that it
/// covers is sent with the value that was signed.
pub proof fn law_signed_headers_are_sent(call: CallView, now: u64, authorization: Seq<char>, i: int)
    requires
        0 <= i < call_lines(call, now).len(),
    ensures
        ({
            let line = call_lines(call, now)[i];
            let sent = sent_headers(http_date(now), authorization, call_body(call), call.headers);
            ||| line.name == "(request-target)"@ && line.value == lowercase(call.method) + " "@
                + target(call.path, call.query)
            ||| line.name == "host"@ && line.value == call.host
            ||| sent.contains((line.name, line.value))
        }),
{
    let line = call_lines(call, now)[i];
    let sent = sent_headers(http_date(now), authorization, call_body(call), call.headers);
    if i == 0 {
        assert(sent[0] == (line.name, line.value));
    } else if i == 3 {
        assert(sent[4] == (line.name, line.value));
    } else if i == 4 {
        assert(sent[3] == (line.name, line.value));
    } else if i == 5 {
        assert(sent[5] == (line.name, line.value));
    }
}

/// The bytes that stand for themselves in a URL are the ASCII letters, the digits
/// and `-._~`.
pub proof fn law_unreserved_bytes(b: u8)
    ensures
        is_unreserved(b) <==> ('A' as u8) <= b <= ('Z' as u8) || ('a' as u8) <= b <= ('z' as u8) || (
        '0' as u8) <= b <= ('9' as u8) || b == '-' as u8 || b == '.' as u8 || b == '_' as u8 || b
            == '~' as u8,
{
}

/// Whether `c` is the upper-case hexadecimal digit of the value `d`.
pub open spec fn is_hex_of(c: char, d: int) -> bool {
    ||| '0' <= c <= '9' && d == c as int - '0' as int
    ||| 'A' <= c <= 'F' && d == c as int - 'A' as int + 10
}

/// Each byte is written by itself: behind what stands for those before it, as it
/// is where it stands for itself, and else as a percent sign and its two
/// upper-case hexadecimal digits.
pub proof fn law_each_byte_is_encoded(bytes: Seq<u8>, b: u8)
    ensures
        pct(Seq::empty()).len() == 0,
        is_unreserved(b) ==> pct(bytes.push(b)) == pct(bytes).push(b as char),
        !is_unreserved(b) ==> ({
            let n = pct(bytes).len() as int;
            let all = pct(bytes.push(b));
            &&& all.len() == n + 3
            &&& all.take(n) == pct(bytes)
            &&& all[n] == '%'
            &&& is_hex_of(all[n + 1], b as int / 16)
            &&& is_hex_of(all[n + 2], b as int % 16)
        }),
    decreases bytes.len(),
{
    lemma_pct_push(bytes, b);
    assert(pct(bytes.push(b)).take(pct(bytes).len() as int) =~= pct(bytes));
}

proof fn lemma_pct_push(bytes: Seq<u8>, b: u8)
    ensures
        pct(bytes.push(b)) == pct(bytes) + pct_byte(b),
    decreases bytes.len(),
{
    let all = bytes.push(b);
    if bytes.len() == 0 {
        assert(all.drop_first() =~= bytes);
        assert(pct(bytes).len() == 0);
        assert(pct(all) =~= pct(bytes) + pct_byte(b));
    } else {
        assert(all.drop_first() =~= bytes.drop_first().push(b));
        lemma_pct_push(bytes.drop_first(), b);
        assert(pct(all) =~= pct(bytes) + pct_byte(b));
    }
}

/// A path without a query stands alone; a query starts behind a question mark,
/// and each further name with its value behind an ampersand, both encoded, with
/// an equals sign between them.
pub proof fn law_query_grows_by_pairs(
    path: Seq<char>,
    query: Seq<(Seq<char>, Seq<char>)>,
    name: Seq<char>,
    value: Seq<char>,
)
    ensures
        target(path, Seq::empty()) == path,
        query.len() == 0 ==> target(path, query.push((name, value))) == path + "?"@ + (pct(
            encode_utf8(name),
        ) + "="@ + pct(encode_utf8(value))),
        query.len() > 0 ==> target(path, query.push((name, value))) == target(path, query) + "&"@
            + (pct(encode_utf8(name)) + "="@ + pct(encode_utf8(value))),
{
    let parts = query_parts(query);
    let part = pct(encode_utf8(name)) + "="@ + pct(encode_utf8(value));
    assert(query_parts(query.push((name, value))) =~= parts.push(part));
    law_joining_puts_separators_between(parts, "&"@, part);
    if query.len() > 0 {
        assert(target(path, query.push((name, value))) =~= target(path, query) + "&"@ + part);
    }
}

/// A request goes, over HTTPS, to the host and the path with the query that it
/// was called for, with the method of the call, the given headers and the given
/// bytes.
pub proof fn law_request_goes_where_it_is_called(
    request: HttpRequest,
    call: CallView,
    headers: Seq<(Seq<char>, Seq<char>)>,
    body: Option<Seq<u8>>,
)
    requires
        request.sends(call, headers, body),
    ensures
        request.method@ == call.method,
        request.url@ == "https://"@ + call.host + target(call.path, call.query),
        pair_views(request.headers@) == headers,
        request.body is Some <==> body is Some,
        request.body matches Some(bytes) ==> body == Some(bytes@),
{
}

/// The headers that are sent are the date, the authorization and the sender's
/// name, those of the body where there is one, and behind them those that the
/// call itself gives; none is left out and none is added.
pub proof fn law_headers_are_complete(
    date: Seq<char>,
    authorization: Seq<char>,
    body: Option<Seq<u8>>,
    own: Seq<(Seq<char>, Seq<char>)>,
)
    ensures
        ({
            let sent = sent_headers(date, authorization, body, own);
            let n: int = if body is Some {
                6
            } else {
                3
            };
            &&& sent.len() == n + own.len()
            &&& sent[0] == ("date"@, date)
            &&& sent[1] == ("authorization"@, authorization)
            &&& sent[2] == ("user-agent"@, "oci-free-tier-arm/1.0"@)
            &&& body matches Some(bytes) ==> {
                &&& sent[3] == ("content-type"@, "application/json"@)
                &&& sent[4] == ("content-length"@, decimal(bytes.len()))
                &&& sent[5] == ("x-content-sha256"@, base64_text(sha256(bytes)))
            }
            &&& sent.skip(n) =~= own
        }),
{
}

/// The signature of a call covers what is called for: its method in lower case
/// with the path and the query, its host, and where it has a body the length and
/// the digest of the very bytes that are sent for it.
pub proof fn law_call_is_signed_as_it_is_sent(call: CallView, now: u64)
    ensures
        ({
            let lines = call_lines(call, now);
            &&& lines.len() == if call.body is Some {
                6int
            } else {
                3int
            }
            &&& lines[0].name == "date"@ && lines[0].value == http_date(now)
            &&& lines[1].name == "(request-target)"@ && lines[1].value == lowercase(call.method)
                + " "@ + target(call.path, call.query)
            &&& lines[2].name == "host"@ && lines[2].value == call.host
            &&& call.body matches Some(tree) ==> {
                &&& call_body(call) == Some(json_bytes(tree))
                &&& lines[3].name == "content-length"@ && lines[3].value == decimal(
                    json_bytes(tree).len(),
                )
                &&& lines[4].name == "content-type"@ && lines[4].value == "application/json"@
                &&& lines[5].name == "x-content-sha256"@ && lines[5].value == base64_text(
                    sha256(json_bytes(tree)),
                )
            }
            &&& call.body is None ==> call_body(call) is None
        }),
{
}

/// Requests with a body are made with POST and PUT, those without one with GET
/// and DELETE, and with nothing else.
pub proof fn law_methods_fit_the_body(method: Seq<char>)
    ensures
        is_supported(method, true) <==> method == "POST"@ || method == "PUT"@,
        is_supported(method, false) <==> method == "GET"@ || method == "DELETE"@,
        unsupported(method, true) == method + " with body not supported"@,
        unsupported(method, false) == method + " without body not supported"@,
{
}

/// An answer is good exactly where its status is in the 200s and its body is
/// JSON, and is that JSON. Any other status is an error of that status, and a body
/// that is no JSON is one that no status of the service is told for.
pub proof fn law_answers_go_by_their_status(
    status: u16,
    value: Result<JsonTree, Seq<char>>,
    body: Seq<char>,
)
    ensures
        ({
            let answer = answer_of(status, value, body);
            &&& answer is Ok <==> 200 <= status <= 299 && value is Ok
            &&& answer is Ok ==> answer->Ok_0 == value->Ok_0
            &&& answer is Err && !(200 <= status <= 299) ==> answer->Err_0 is Http
                && answer->Err_0->status == status && answer->Err_0->message == message_of(
                value,
                body,
            )
            &&& answer is Err && 200 <= status <= 299 ==> answer->Err_0 == ErrorView::Other(
                "invalid JSON from OCI: "@ + value->Err_0,
            )
        }),
{
}

/// The message of an error is the text in the field `message` of its body, and
/// the whole body where there is no such text.
pub proof fn law_messages_are_read_from_the_body(
    value: Result<JsonTree, Seq<char>>,
    body: Seq<char>,
)
    ensures
        value is Ok && text_field(value->Ok_0, "message"@) is Some ==> text_field(
            value->Ok_0,
            "message"@,
        ) == Some(message_of(value, body)),
        value is Ok && text_field(value->Ok_0, "message"@) is None ==> message_of(value, body)
            == body,
        value is Err ==> message_of(value, body) == body,
{
}

} // verus!
