//! Request signatures: version 1 of the scheme, with RSA over SHA-256.

use vstd::prelude::*;
use vstd::utf8::encode_utf8;

use crate::config::OciConfig;
use crate::crypto::{
    base64_text, format_http_date, http_date, pkcs1_key, pkcs8_key, read_pkcs1, read_pkcs8,
    rsa_signature, sha256, sha256_digest, sign_sha256, to_base64, HTTP_DATE_END,
};
use crate::error::{is_plain, lowercase, plain_lowercase};
use crate::settings::opt_view;
use crate::text::{
    chars_of, contains, cut, decimal, decimal_text, find_char, find_last, join, joined,
    law_joining_puts_separators_between,
    last_occurrence, lemma_cut, lemma_cut_unique, lemma_last_occurrence,
    lemma_last_occurrence_unique, lemma_views_push, occurs_at, text_of, views,
};

verus! {

/// Whose requests are signed, and with which key.
pub struct OciSigner {
    pub tenancy: String,
    pub user: String,
    pub fingerprint: String,
    pub key: rsa::RsaPrivateKey,
}

/// The headers that make a request a signed one.
#[derive(Debug, PartialEq)]
pub struct SignedRequest {
    pub date: String,
    pub authorization: String,
    pub content_type: Option<String>,
    pub content_length: Option<String>,
    pub x_content_sha256: Option<String>,
}

/// What the last line of a key starts with.
pub open spec fn end_marker() -> Seq<char> {
    "-----END"@
}

/// `s` without the byte order marks that it starts with.
pub open spec fn without_bom(s: Seq<char>) -> Seq<char>
    decreases s.len(),
{
    if s.len() > 0 && s[0] == '\u{feff}' {
        without_bom(s.drop_first())
    } else {
        s
    }
}

/// The key in `s`: what stands before the end of the line of its last end
/// marker; all of it where there is no such marker. Byte order marks at the
/// start are left out.
pub open spec fn key_text(s: Seq<char>) -> Seq<char> {
    let bare = without_bom(s);
    let at = last_occurrence(bare, end_marker());
    if at >= 0 {
        bare.take(at + cut(bare.skip(at), '\n'))
    } else {
        bare
    }
}

/// The key in `pem`, without what a download may put before and behind it.
pub fn trim_key(pem: &str) -> (key: String)
    ensures
        key@ == key_text(pem@),
{
    let all: Vec<char> = chars_of(pem);
    let mut from: usize = 0;
    assert(all@.skip(0) =~= pem@);
    while from < all.len() && all[from] == '\u{feff}'
        invariant
            from <= all@.len(),
            without_bom(pem@) == without_bom(all@.skip(from as int)),
        decreases all@.len() - from,
    {
        assert(all@.skip(from as int).drop_first() =~= all@.skip(from + 1));
        from = from + 1;
    }
    let ghost bare = all@.skip(from as int);
    assert(without_bom(pem@) == bare);
    let text: String = text_of(&all, from, all.len());
    assert(text@ =~= bare);
    let chars: Vec<char> = chars_of(text.as_str());
    let marker: Vec<char> = chars_of("-----END");
    match find_last(&chars, &marker) {
        Some(at) => {
            assert(bare.skip(at as int) =~= chars@.subrange(at as int, chars@.len() as int));
            let end: usize = find_char(&chars, '\n', at, chars.len());
            let key: String = text_of(&chars, 0, end);
            assert(key@ =~= bare.take(end as int));
            key
        },
        None => text,
    }
}

/// One signed header: its name and its value.
pub struct SignedLine {
    pub name: Seq<char>,
    pub value: Seq<char>,
}

/// The headers that a signature covers, in order: the date, what is asked for
/// and of whom, and of a body its length, its type and its digest.
pub open spec fn signed_lines(
    date: Seq<char>,
    method: Seq<char>,
    path_and_query: Seq<char>,
    host: Seq<char>,
    body: Option<Seq<u8>>,
) -> Seq<SignedLine> {
    let always = seq![
        SignedLine { name: "date"@, value: date },
        SignedLine { name: "(request-target)"@, value: method + " "@ + path_and_query },
        SignedLine { name: "host"@, value: host },
    ];
    match body {
        Some(bytes) => always + seq![
            SignedLine { name: "content-length"@, value: decimal(bytes.len()) },
            SignedLine { name: "content-type"@, value: "application/json"@ },
            SignedLine { name: "x-content-sha256"@, value: base64_text(sha256(bytes)) },
        ],
        None => always,
    }
}

/// The name of each of some headers.
pub open spec fn line_names(lines: Seq<SignedLine>) -> Seq<Seq<char>> {
    Seq::new(lines.len(), |i: int| lines[i].name)
}

/// The line of each of some headers.
pub open spec fn line_texts(lines: Seq<SignedLine>) -> Seq<Seq<char>> {
    Seq::new(lines.len(), |i: int| lines[i].name + ": "@ + lines[i].value)
}

/// The text that is signed: a line for each header.
pub open spec fn signing_string(lines: Seq<SignedLine>) -> Seq<char> {
    join(line_texts(lines), "\n"@)
}

/// The names of the signed headers.
pub open spec fn header_names(lines: Seq<SignedLine>) -> Seq<char> {
    join(line_names(lines), " "@)
}

/// The authorization header for a signature over `lines`.
pub open spec fn authorization(
    lines: Seq<SignedLine>,
    key_id: Seq<char>,
    signature: Seq<u8>,
) -> Seq<char> {
    "Signature version=\"1\",headers=\""@ + header_names(lines) + "\",keyId=\""@ + key_id
        + "\",algorithm=\"rsa-sha256\",signature=\""@ + base64_text(signature) + "\""@
}

/// The view of an optional body.
pub open spec fn opt_bytes(body: Option<&Vec<u8>>) -> Option<Seq<u8>> {
    match body {
        Some(bytes) => Some(bytes@),
        None => None,
    }
}

/// The key that a text in either form holds, or the text of the error.
pub open spec fn key_in(pem: Seq<char>) -> Result<rsa::RsaPrivateKey, Seq<char>> {
    match pkcs8_key(pem) {
        Some(key) => Ok(key),
        None => pkcs1_key(pem),
    }
}

/// The complaint about a key that cannot be read.
pub open spec fn bad_key(key_file: Seq<char>, error: Seq<char>) -> Seq<char> {
    "cannot parse private key "@ + key_file + ": "@ + error
}

impl SignedRequest {
    /// Whether this carries the date, the authorization for `signature` over
    /// `lines`, and the headers of the body.
    pub open spec fn carries(
        &self,
        date: Seq<char>,
        lines: Seq<SignedLine>,
        key_id: Seq<char>,
        signature: Seq<u8>,
        body: Option<Seq<u8>>,
    ) -> bool {
        &&& self.date@ == date
        &&& self.authorization@ == authorization(lines, key_id, signature)
        &&& match body {
            Some(bytes) => {
                &&& opt_view(self.content_type) == Some("application/json"@)
                &&& opt_view(self.content_length) == Some(decimal(bytes.len()))
                &&& opt_view(self.x_content_sha256) == Some(base64_text(sha256(bytes)))
            },
            None => {
                &&& self.content_type is None
                &&& self.content_length is None
                &&& self.x_content_sha256 is None
            },
        }
    }
}

fn header_line(name: &str, value: &str) -> (line: String)
    ensures
        line@ == name@ + ": "@ + value@,
{
    let mut line: String = name.to_owned();
    line.append(": ");
    line.append(value);
    line
}

/// The names of the headers that a signature covers, and the lines that are
/// signed.
struct Covered {
    names: Vec<String>,
    lines: Vec<String>,
}

impl Covered {
    spec fn covers(&self, lines: Seq<SignedLine>) -> bool {
        &&& views(self.names@) == line_names(lines)
        &&& views(self.lines@) == line_texts(lines)
    }

    fn cover(&mut self, name: &str, value: &str, Ghost(lines): Ghost<Seq<SignedLine>>)
        requires
            old(self).covers(lines),
        ensures
            final(self).covers(lines.push(SignedLine { name: name@, value: value@ })),
    {
        let ghost line = SignedLine { name: name@, value: value@ };
        let ghost names = self.names@;
        let ghost texts = self.lines@;
        self.names.push(name.to_owned());
        self.lines.push(header_line(name, value));
        proof {
            lemma_views_push(names, self.names@.last());
            lemma_views_push(texts, self.lines@.last());
            assert(line_names(lines.push(line)) =~= line_names(lines).push(line.name));
            assert(line_texts(lines.push(line)) =~= line_texts(lines).push(
                line.name + ": "@ + line.value,
            ));
        }
    }
}

fn covered(
    date: &str,
    method: &str,
    path_and_query: &str,
    host: &str,
    body: Option<&Vec<u8>>,
) -> (c: Covered)
    ensures
        c.covers(signed_lines(date@, method@, path_and_query@, host@, opt_bytes(body))),
{
    let ghost lines = signed_lines(date@, method@, path_and_query@, host@, opt_bytes(body));
    let mut c: Covered = Covered { names: Vec::new(), lines: Vec::new() };
    assert(views(c.names@) =~= line_names(lines.take(0)));
    assert(views(c.lines@) =~= line_texts(lines.take(0)));
    let mut target: String = method.to_owned();
    target.append(" ");
    target.append(path_and_query);
    c.cover("date", date, Ghost(lines.take(0)));
    assert(lines.take(0).push(lines[0]) =~= lines.take(1));
    c.cover("(request-target)", target.as_str(), Ghost(lines.take(1)));
    assert(lines.take(1).push(lines[1]) =~= lines.take(2));
    c.cover("host", host, Ghost(lines.take(2)));
    assert(lines.take(2).push(lines[2]) =~= lines.take(3));
    match body {
        Some(bytes) => {
            let length: String = decimal_text(bytes.len() as u64);
            let digest: String = to_base64(sha256_digest(bytes.as_slice()).as_slice());
            c.cover("content-length", length.as_str(), Ghost(lines.take(3)));
            assert(lines.take(3).push(lines[3]) =~= lines.take(4));
            c.cover("content-type", "application/json", Ghost(lines.take(4)));
            assert(lines.take(4).push(lines[4]) =~= lines.take(5));
            c.cover("x-content-sha256", digest.as_str(), Ghost(lines.take(5)));
            assert(lines.take(5).push(lines[5]) =~= lines);
        },
        None => {
            assert(lines.take(3) =~= lines);
        },
    }
    c
}

/// The text that is signed for a request of the given date.
pub fn signing_text(
    date: &str,
    method: &str,
    path_and_query: &str,
    host: &str,
    body: Option<&Vec<u8>>,
) -> (text: String)
    ensures
        text@ == signing_string(
            signed_lines(date@, method@, path_and_query@, host@, opt_bytes(body)),
        ),
{
    let c: Covered = covered(date, method, path_and_query, host, body);
    joined(&c.lines, "\n")
}

impl OciSigner {
    /// What the key is known by.
    pub open spec fn key_id(&self) -> Seq<char> {
        self.tenancy@ + "/"@ + self.user@ + "/"@ + self.fingerprint@
    }

    /// Whether this signs for the user of `cfg` with `key`.
    pub open spec fn signs_for(&self, cfg: OciConfig, key: rsa::RsaPrivateKey) -> bool {
        &&& self.tenancy@ == cfg.tenancy@
        &&& self.user@ == cfg.user@
        &&& self.fingerprint@ == cfg.fingerprint@
        &&& self.key == key
    }

    /// A signer with a key that was read, or the complaint that it was not.
    pub fn with_key(cfg: &OciConfig, key: Result<rsa::RsaPrivateKey, String>) -> (signer: Result<
        OciSigner,
        String,
    >)
        ensures
            signer is Ok <==> key is Ok,
            signer matches Ok(s) ==> s.signs_for(*cfg, key->Ok_0),
            signer matches Err(e) ==> e@ == bad_key(cfg.key_file@, key->Err_0@),
    {
        match key {
            Ok(key) => Ok(
                OciSigner {
                    tenancy: cfg.tenancy.clone(),
                    user: cfg.user.clone(),
                    fingerprint: cfg.fingerprint.clone(),
                    key,
                },
            ),
            Err(error) => {
                let mut complaint: String = "cannot parse private key ".to_owned();
                complaint.append(cfg.key_file.as_str());
                complaint.append(": ");
                complaint.append(error.as_str());
                Err(complaint)
            },
        }
    }

    /// A signer with the key that the text of the key file holds.
    pub fn new(cfg: &OciConfig, pem: &str) -> (signer: Result<OciSigner, String>)
        ensures
            signer is Ok <==> key_in(key_text(pem@)) is Ok,
            signer matches Ok(s) ==> s.signs_for(*cfg, key_in(key_text(pem@))->Ok_0),
            signer matches Err(e) ==> e@ == bad_key(cfg.key_file@, key_in(key_text(pem@))->Err_0),
    {
        let text: String = trim_key(pem);
        match read_pkcs8(text.as_str()) {
            Some(key) => OciSigner::with_key(cfg, Ok(key)),
            None => OciSigner::with_key(cfg, read_pkcs1(text.as_str())),
        }
    }

    /// The headers of a request whose signing text was signed, or the
    /// complaint that it could not be.
    pub fn sealed(
        &self,
        date: String,
        method: &str,
        host: &str,
        path_and_query: &str,
        body: Option<&Vec<u8>>,
        signature: Result<Vec<u8>, String>,
    ) -> (signed: Result<SignedRequest, String>)
        ensures
            signed is Ok <==> signature is Ok,
            signed matches Ok(r) ==> r.carries(
                date@,
                signed_lines(date@, method@, path_and_query@, host@, opt_bytes(body)),
                self.key_id(),
                signature->Ok_0@,
                opt_bytes(body),
            ),
            signed matches Err(e) ==> e@ == "signing failed: "@ + signature->Err_0@,
    {
        let bytes: Vec<u8> = match signature {
            Ok(bytes) => bytes,
            Err(error) => {
                let mut complaint: String = "signing failed: ".to_owned();
                complaint.append(error.as_str());
                return Err(complaint);
            },
        };
        let c: Covered = covered(date.as_str(), method, path_and_query, host, body);
        let mut key_id: String = self.tenancy.clone();
        key_id.append("/");
        key_id.append(self.user.as_str());
        key_id.append("/");
        key_id.append(self.fingerprint.as_str());
        let mut authorization: String = "Signature version=\"1\",headers=\"".to_owned();
        authorization.append(joined(&c.names, " ").as_str());
        authorization.append("\",keyId=\"");
        authorization.append(key_id.as_str());
        authorization.append("\",algorithm=\"rsa-sha256\",signature=\"");
        authorization.append(to_base64(bytes.as_slice()).as_str());
        authorization.append("\"");
        match body {
            Some(body) => Ok(
                SignedRequest {
                    date,
                    authorization,
                    content_type: Some("application/json".to_owned()),
                    content_length: Some(decimal_text(body.len() as u64)),
                    x_content_sha256: Some(
                        to_base64(sha256_digest(body.as_slice()).as_slice()),
                    ),
                },
            ),
            None => Ok(
                SignedRequest {
                    date,
                    authorization,
                    content_type: None,
                    content_length: None,
                    x_content_sha256: None,
                },
            ),
        }
    }

    /// Signs a request that is made `now`, in seconds since 1970.
    pub fn sign(
        &self,
        method: &str,
        host: &str,
        path_and_query: &str,
        body: Option<&Vec<u8>>,
        now: u64,
    ) -> (signed: Result<SignedRequest, String>)
        requires
            now < HTTP_DATE_END,
        ensures
            ({
                let lines = signed_lines(
                    http_date(now),
                    lowercase(method@),
                    path_and_query@,
                    host@,
                    opt_bytes(body),
                );
                match rsa_signature(self.key, encode_utf8(signing_string(lines))) {
                    Ok(signature) => signed matches Ok(r) && r.carries(
                        http_date(now),
                        lines,
                        self.key_id(),
                        signature,
                        opt_bytes(body),
                    ),
                    Err(error) => signed matches Err(e) && e@ == "signing failed: "@ + error,
                }
            }),
            is_plain(method@) ==> lowercase(method@) == plain_lowercase(method@),
    {
        let low: String = method.to_lowercase();
        let date: String = format_http_date(now);
        let text: String = signing_text(date.as_str(), low.as_str(), path_and_query, host, body);
        let signature: Result<Vec<u8>, String> = sign_sha256(&self.key, text.as_str().as_bytes());
        self.sealed(date, low.as_str(), host, path_and_query, body, signature)
    }
}

proof fn lemma_without_bom(s: Seq<char>)
    ensures
        without_bom(s).len() > 0 ==> without_bom(s)[0] != '\u{feff}',
        without_bom(without_bom(s)) == without_bom(s),
    decreases s.len(),
{
    if s.len() > 0 && s[0] == '\u{feff}' {
        lemma_without_bom(s.drop_first());
    }
}

/// A text that goes on from the key line of `bare`, if at all, with a new line
/// and then no end marker, holds the same key.
proof fn lemma_same_key(bare: Seq<char>, text: Seq<char>)
    requires
        bare.len() > 0 ==> bare[0] != '\u{feff}',
        contains(bare, end_marker()),
        ({
            let at = last_occurrence(bare, end_marker());
            let end = at + cut(bare.skip(at), '\n');
            &&& end <= text.len()
            &&& text.take(end) == bare.take(end)
            &&& end < text.len() ==> text[end] == '\n' && !contains(
                text.skip(end + 1),
                end_marker(),
            )
        }),
    ensures
        key_text(text) == key_text(bare),
{
    let marker = end_marker();
    let at = last_occurrence(bare, marker);
    let end = at + cut(bare.skip(at), '\n');
    reveal_strlit("-----END");
    lemma_last_occurrence(bare, marker);
    lemma_cut(bare.skip(at), '\n');
    assert forall|k: int| 0 <= k < marker.len() implies bare[at + k] == marker[k] by {
        assert(bare.subrange(at, at + marker.len())[k] == bare[at + k]);
    }
    assert(cut(bare.skip(at), '\n') >= marker.len()) by {
        let c = cut(bare.skip(at), '\n');
        if c < marker.len() {
            assert(bare.skip(at)[c] == bare[at + c]);
            assert(bare[at + c] == marker[c]);
        }
    }
    assert forall|i: int| 0 <= i < end implies text[i] == bare[i] by {
        assert(text.take(end)[i] == bare.take(end)[i]);
    }
    assert(without_bom(text) == text);
    assert(without_bom(bare) == bare);
    assert(text.subrange(at, at + marker.len()) =~= marker);
    assert(occurs_at(text, marker, at));
    assert forall|later: int| at < later implies !occurs_at(text, marker, later) by {
        if occurs_at(text, marker, later) {
            if later + marker.len() <= end {
                assert(bare.subrange(later, later + marker.len()) =~= text.subrange(
                    later,
                    later + marker.len(),
                ));
                assert(occurs_at(bare, marker, later));
            } else if later <= end {
                assert(text.subrange(later, later + marker.len())[end - later] == text[end]);
                assert(text[end] == marker[end - later]);
            } else {
                let rest = text.skip(end + 1);
                let there = later - end - 1;
                assert(rest.subrange(there, there + marker.len()) =~= text.subrange(
                    later,
                    later + marker.len(),
                ));
                assert(occurs_at(rest, marker, there));
            }
        }
    }
    lemma_last_occurrence_unique(text, marker, at);
    assert forall|i: int| 0 <= i < end - at implies text.skip(at)[i] != '\n' by {
        assert(text.skip(at)[i] == text[at + i]);
        assert(bare.skip(at)[i] == bare[at + i]);
    }
    lemma_cut_unique(text.skip(at), '\n', end - at);
    assert(text.take(end) =~= bare.take(end));
}

/// A byte order mark before a key does not matter.
pub proof fn law_byte_order_mark_is_dropped(s: Seq<char>)
    ensures
        key_text(seq!['\u{feff}'] + s) == key_text(s),
{
    assert((seq!['\u{feff}'] + s).drop_first() =~= s);
}

/// What a console puts behind the end of a key does not matter: with or without
/// it, the same key is read.
pub proof fn law_trailing_text_is_dropped(s: Seq<char>, junk: Seq<char>)
    requires
        contains(without_bom(s), end_marker()),
        !contains(junk, end_marker()),
    ensures
        key_text(key_text(s) + "\n"@ + junk) == key_text(s),
        key_text(key_text(s)) == key_text(s),
{
    let bare = without_bom(s);
    let at = last_occurrence(bare, end_marker());
    let end = at + cut(bare.skip(at), '\n');
    reveal_strlit("\n");
    lemma_without_bom(s);
    lemma_last_occurrence(bare, end_marker());
    lemma_cut(bare.skip(at), '\n');
    let key = key_text(s);
    assert(key == bare.take(end));
    assert(key.take(end) =~= bare.take(end));
    lemma_same_key(bare, key);
    let longer = key + "\n"@ + junk;
    assert(longer.take(end) =~= bare.take(end));
    assert(longer.skip(end + 1) =~= junk);
    lemma_same_key(bare, longer);
    assert(key_text(bare) == key);
}

/// The signature of every request that carries a body covers the body, whatever
/// the method: its length, its type and its digest are signed behind the date,
/// the target and the host.
pub proof fn law_body_is_signed(
    date: Seq<char>,
    method: Seq<char>,
    path_and_query: Seq<char>,
    host: Seq<char>,
    bytes: Seq<u8>,
)
    ensures
        ({
            let lines = signed_lines(date, method, path_and_query, host, Some(bytes));
            &&& line_names(lines) =~= seq![
                "date"@,
                "(request-target)"@,
                "host"@,
                "content-length"@,
                "content-type"@,
                "x-content-sha256"@,
            ]
            &&& lines[3].value == decimal(bytes.len())
            &&& lines[4].value == "application/json"@
            &&& lines[5].value == base64_text(sha256(bytes))
        }),
{
}

/// The signature of every request covers the date, the method with the path and
/// the query, and the host; of a request without a body nothing else.
pub proof fn law_request_line_is_signed(
    date: Seq<char>,
    method: Seq<char>,
    path_and_query: Seq<char>,
    host: Seq<char>,
    body: Option<Seq<u8>>,
)
    ensures
        ({
            let lines = signed_lines(date, method, path_and_query, host, body);
            &&& lines.len() == if body is Some {
                6int
            } else {
                3int
            }
            &&& lines[0].name == "date"@ && lines[0].value == date
            &&& lines[1].name == "(request-target)"@ && lines[1].value == method + " "@
                + path_and_query
            &&& lines[2].name == "host"@ && lines[2].value == host
        }),
{
}

/// The text that is signed has one line for each header that is covered, with
/// its name and its value, in the order in which the names are listed; and one
/// more header is one more line and one more name.
pub proof fn law_signed_text_has_a_line_for_each_header(lines: Seq<SignedLine>, line: SignedLine)
    ensures
        lines.len() == 0 ==> signing_string(lines.push(line)) == line.name + ": "@ + line.value,
        lines.len() > 0 ==> signing_string(lines.push(line)) == signing_string(lines) + "\n"@ + (
        line.name + ": "@ + line.value),
        lines.len() == 0 ==> header_names(lines.push(line)) == line.name,
        lines.len() > 0 ==> header_names(lines.push(line)) == header_names(lines) + " "@
            + line.name,
{
    let texts = line_texts(lines);
    let names = line_names(lines);
    assert(line_texts(lines.push(line)) =~= texts.push(line.name + ": "@ + line.value));
    assert(line_names(lines.push(line)) =~= names.push(line.name));
    law_joining_puts_separators_between(texts, "\n"@, line.name + ": "@ + line.value);
    law_joining_puts_separators_between(names, " "@, line.name);
}

/// The authorization says which version the signature is of, which headers it
/// covers, whose key it is, the algorithm, and the signature itself in base64.
pub proof fn law_authorization_names_its_parts(
    lines: Seq<SignedLine>,
    key_id: Seq<char>,
    signature: Seq<u8>,
)
    ensures
        authorization(lines, key_id, signature) == "Signature version=\"1\",headers=\""@
            + header_names(lines) + "\",keyId=\""@ + key_id
            + "\",algorithm=\"rsa-sha256\",signature=\""@ + base64_text(signature) + "\""@,
{
}

/// The headers that a signed request carries are those that were signed: the date
/// as it was, and for a body exactly its type, its length and its digest.
pub proof fn law_signed_request_carries_what_was_signed(
    request: SignedRequest,
    date: Seq<char>,
    lines: Seq<SignedLine>,
    key_id: Seq<char>,
    signature: Seq<u8>,
    body: Option<Seq<u8>>,
)
    requires
        request.carries(date, lines, key_id, signature, body),
    ensures
        request.date@ == date,
        request.authorization@ == authorization(lines, key_id, signature),
        body is None ==> request.content_type is None && request.content_length is None
            && request.x_content_sha256 is None,
        body matches Some(bytes) ==> {
            &&& opt_view(request.content_type) == Some("application/json"@)
            &&& opt_view(request.content_length) == Some(decimal(bytes.len()))
            &&& opt_view(request.x_content_sha256) == Some(base64_text(sha256(bytes)))
        },
{
}

/// A key is known by its tenancy, its user and its fingerprint, and a signer for
/// a configuration has those that the configuration gives.
pub proof fn law_key_is_known_by_its_owner(
    signer: OciSigner,
    cfg: OciConfig,
    key: rsa::RsaPrivateKey,
)
    ensures
        signer.signs_for(cfg, key) ==> signer.key == key && signer.key_id() == cfg.tenancy@ + "/"@
            + cfg.user@ + "/"@ + cfg.fingerprint@,
{
}

/// A key is read in PKCS#8 form where it can be, and else in PKCS#1 form; the
/// error is that of the second, and is told with the file of the key.
pub proof fn law_key_forms_are_tried_in_order(
    pem: Seq<char>,
    key_file: Seq<char>,
    error: Seq<char>,
)
    ensures
        bad_key(key_file, error) == "cannot parse private key "@ + key_file + ": "@ + error,
        pkcs8_key(pem) matches Some(key) ==> key_in(pem) == Ok::<rsa::RsaPrivateKey, Seq<char>>(
            key,
        ),
        pkcs8_key(pem) is None ==> key_in(pem) == pkcs1_key(pem),
{
}

/// The key in a text reaches up to the end of the line of its end marker, and no
/// further: what stands before that is kept as it is, and what stands behind is
/// not.
pub proof fn law_key_reaches_to_its_end_line(
    start: Seq<char>,
    line: Seq<char>,
    junk: Seq<char>,
)
    requires
        start.len() > 0 ==> start[0] != '\u{feff}',
        !line.contains('\n'),
        !contains(line, "-----END"@),
        !contains(junk, "-----END"@),
    ensures
        key_text(start + "-----END"@ + line + "\n"@ + junk) == start + "-----END"@ + line,
        key_text(start + "-----END"@ + line) == start + "-----END"@ + line,
{
    let bare = start + "-----END"@ + line;
    let at = start.len() as int;
    reveal_strlit("\n");
    lemma_marker_is_last(start, line);
    lemma_end_line(start, line);
    assert(bare.take(bare.len() as int) =~= bare);
    assert(key_text(bare) == bare);
    let text = bare + "\n"@ + junk;
    assert(text.take(bare.len() as int) =~= bare.take(bare.len() as int));
    assert(text.skip((bare.len() + 1) as int) =~= junk);
    assert(contains(bare, end_marker()));
    lemma_same_key(bare, text);
}

proof fn lemma_marker_is_last(start: Seq<char>, line: Seq<char>)
    requires
        !contains(line, end_marker()),
    ensures
        occurs_at(start + end_marker() + line, end_marker(), start.len() as int),
        last_occurrence(start + end_marker() + line, end_marker()) == start.len(),
{
    let marker = end_marker();
    let bare = start + marker + line;
    let at = start.len() as int;
    reveal_strlit("-----END");
    assert(bare.subrange(at, at + marker.len()) =~= marker);
    assert(occurs_at(bare, marker, at));
    assert forall|later: int| at < later implies !occurs_at(bare, marker, later) by {
        if occurs_at(bare, marker, later) {
            let part = bare.subrange(later, later + marker.len());
            if later >= at + marker.len() {
                let there = later - at - marker.len();
                assert(line.subrange(there, there + marker.len()) =~= part);
                assert(occurs_at(line, marker, there));
            } else if later - at > 4 {
                assert(part[0] == bare[later]);
                assert(bare[later] == marker[later - at]);
            } else {
                let k = at + 5 - later;
                assert(part[k] == bare[later + k]);
                assert(bare[at + 5] == marker[5]);
            }
        }
    }
    lemma_last_occurrence_unique(bare, marker, at);
}

proof fn lemma_end_line(start: Seq<char>, line: Seq<char>)
    requires
        start.len() > 0 ==> start[0] != '\u{feff}',
        !line.contains('\n'),
    ensures
        ({
            let bare = start + end_marker() + line;
            &&& bare[0] != '\u{feff}'
            &&& without_bom(bare) == bare
            &&& cut(bare.skip(start.len() as int), '\n') == bare.len() - start.len()
        }),
{
    let marker = end_marker();
    let bare = start + marker + line;
    reveal_strlit("-----END");
    let rest = bare.skip(start.len() as int);
    assert forall|i: int| 0 <= i < rest.len() implies rest[i] != '\n' by {
        if i >= marker.len() {
            assert(rest[i] == line[i - marker.len()]);
        } else {
            assert(rest[i] == marker[i]);
        }
    }
    lemma_cut_unique(rest, '\n', rest.len() as int);
    if start.len() > 0 {
        assert(bare[0] == start[0]);
    } else {
        assert(bare[0] == marker[0]);
    }
}

/// A text without an end marker is taken as it is, but for byte order marks at its
/// start.
pub proof fn law_text_without_marker_is_kept(s: Seq<char>)
    requires
        !contains(s, "-----END"@),
        s.len() > 0 ==> s[0] != '\u{feff}',
    ensures
        key_text(s) == s,
{
    lemma_last_occurrence(s, end_marker());
}

} // verus!
