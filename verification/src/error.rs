//! What can go wrong with a request, and whether it is worth another try.

use vstd::prelude::*;

use crate::settings::{ascii_lower, equal_ignoring_case};
use crate::text::{contains, text_contains};

verus! {

/// Why a request brought no answer.
#[derive(Debug, PartialEq)]
pub enum ApiError {
    /// The service answered with a status outside the 200s.
    Http { status: u16, message: String },
    /// The request or its answer did not get through.
    Transport(String),
    /// Anything else.
    Other(String),
}

/// What an error says.
pub enum ErrorView {
    Http { status: u16, message: Seq<char> },
    Transport(Seq<char>),
    Other(Seq<char>),
}

impl View for ApiError {
    type V = ErrorView;

    open spec fn view(&self) -> ErrorView {
        match self {
            ApiError::Http { status, message } => ErrorView::Http {
                status: *status,
                message: message@,
            },
            ApiError::Transport(m) => ErrorView::Transport(m@),
            ApiError::Other(m) => ErrorView::Other(m@),
        }
    }
}

/// What `str::to_lowercase` makes of a text.
pub uninterp spec fn lowercase(s: Seq<char>) -> Seq<char>;

/// Whether a text is ASCII throughout.
pub open spec fn is_plain(s: Seq<char>) -> bool {
    forall|i: int| 0 <= i < s.len() ==> (#[trigger] s[i] as u32) < 128
}

/// An ASCII text in lower case.
pub open spec fn plain_lowercase(s: Seq<char>) -> Seq<char> {
    s.map_values(|c: char| ascii_lower(c))
}

/// `str::to_lowercase` depends on nothing but the text, and of an ASCII text
/// it lowers each capital and keeps the rest. It maps one character after the
/// other, so that a run of ASCII characters in any text comes out as that run in
/// lower case.
pub assume_specification[ str::to_lowercase ](s: &str) -> (low: String)
    ensures
        low@ == lowercase(s@),
        is_plain(s@) ==> low@ == plain_lowercase(s@),
        forall|i: int, j: int|
            0 <= i <= j <= s@.len() && is_plain(#[trigger] s@.subrange(i, j)) ==> contains(
                low@,
                plain_lowercase(s@.subrange(i, j)),
            ),
;

/// Whether `word` stands anywhere in `s`, in any case of its ASCII letters.
pub open spec fn mentions(s: Seq<char>, word: Seq<char>) -> bool {
    exists|at: int|
        0 <= at && at + word.len() <= s.len() && equal_ignoring_case(
            #[trigger] s.subrange(at, at + word.len()),
            word,
        )
}

/// Whether `word` is ASCII throughout, without capitals.
pub open spec fn is_low_word(word: Seq<char>) -> bool {
    forall|i: int|
        0 <= i < word.len() ==> (#[trigger] word[i] as u32) < 128 && !('A' <= word[i] <= 'Z')
}

/// A part of a text that is `word` in some case is ASCII, and `word` in lower
/// case.
proof fn lemma_same_word(part: Seq<char>, word: Seq<char>)
    requires
        is_low_word(word),
        equal_ignoring_case(part, word),
    ensures
        is_plain(part),
        plain_lowercase(part) == word,
{
    assert forall|i: int| 0 <= i < part.len() implies (#[trigger] part[i] as u32) < 128
        && ascii_lower(part[i]) == word[i] by {
        assert(ascii_lower(part[i]) == ascii_lower(word[i]));
        assert((word[i] as u32) < 128);
    }
    assert(plain_lowercase(part) =~= word);
}

/// The words that errors are told apart by are ASCII, without capitals.
proof fn lemma_low_words()
    ensures
        is_low_word(capacity_notice()),
        is_low_word("internal"@),
        is_low_word("timeout"@),
        is_low_word("temporary"@),
        is_low_word("limitexceeded"@),
{
    reveal_strlit("out of host capacity");
    reveal_strlit("internal");
    reveal_strlit("timeout");
    reveal_strlit("temporary");
    reveal_strlit("limitexceeded");
}

/// `s` in lower case, which holds each of the words that errors are told apart by
/// where `s` mentions it.
fn lowered(s: &str) -> (low: String)
    ensures
        low@ == lowercase(s@),
        is_plain(s@) ==> low@ == plain_lowercase(s@),
        forall|word: Seq<char>|
            is_low_word(word) && #[trigger] mentions(s@, word) ==> contains(low@, word),
{
    let low: String = s.to_lowercase();
    assert forall|word: Seq<char>| is_low_word(word) && #[trigger] mentions(s@, word) implies
        contains(low@, word) by {
        let at = choose|at: int|
            0 <= at && at + word.len() <= s@.len() && equal_ignoring_case(
                #[trigger] s@.subrange(at, at + word.len()),
                word,
            );
        lemma_same_word(s@.subrange(at, at + word.len()), word);
    }
    low
}

/// The message of a region without room, in lower case.
pub open spec fn capacity_notice() -> Seq<char> {
    "out of host capacity"@
}

impl ErrorView {
    /// The status that the service answered with, or zero.
    pub open spec fn status(self) -> u16 {
        match self {
            ErrorView::Http { status, .. } => status,
            _ => 0,
        }
    }

    /// The text of the error.
    pub open spec fn message(self) -> Seq<char> {
        match self {
            ErrorView::Http { message, .. } => message,
            ErrorView::Transport(m) => m,
            ErrorView::Other(m) => m,
        }
    }

    /// Whether the service asks for fewer requests.
    pub open spec fn rate_limited(self) -> bool {
        self.status() == 429
    }

    /// Whether the message tells of a region without room, in any case.
    pub open spec fn lacks_room(self) -> bool {
        mentions(self.message(), capacity_notice())
    }

    /// Whether the service answered with a fault of its own whose message tells of
    /// a region without room or of a passing fault, in any case.
    pub open spec fn passing(self) -> bool {
        &&& self.status() == 500
        &&& {
            ||| self.lacks_room()
            ||| mentions(self.message(), "internal"@)
            ||| mentions(self.message(), "timeout"@)
            ||| mentions(self.message(), "temporary"@)
        }
    }

    /// Whether another try may succeed.
    pub open spec fn retryable(self) -> bool {
        worth_retrying(self.status(), lowercase(self.message()), self is Transport)
    }

    /// Whether no further try can succeed.
    pub open spec fn non_retryable(self) -> bool {
        hopeless(self.status(), lowercase(self.message()))
    }
}

/// Whether an error of the given status and lower-case message may pass: a
/// region without room, a rate limit, a gateway in trouble, a passing fault of
/// the service, or a failure on the way.
pub open spec fn worth_retrying(status: u16, low: Seq<char>, transport: bool) -> bool {
    ||| status == 429
    ||| status == 502
    ||| status == 503
    ||| status == 504
    ||| status == 500 && (contains(low, capacity_notice()) || contains(low, "internal"@)
        || contains(low, "timeout"@) || contains(low, "temporary"@))
    ||| transport
}

/// Whether an error of the given status and lower-case message will stay: a
/// request that the service refuses, or a limit that is used up, and no region
/// without room.
pub open spec fn hopeless(status: u16, low: Seq<char>) -> bool {
    &&& !contains(low, capacity_notice())
    &&& {
        ||| status == 400
        ||| status == 401
        ||| status == 403
        ||| status == 404
        ||| status == 409
        ||| contains(low, "limitexceeded"@)
    }
}

/// Whether an error of the given status and lower-case message may pass.
pub fn may_pass(status: u16, low: &str, transport: bool) -> (passes: bool)
    ensures
        passes == worth_retrying(status, low@, transport),
{
    if status == 500 && text_contains(low, "out of host capacity") {
        return true;
    }
    if status == 429 {
        return true;
    }
    if status == 502 || status == 503 || status == 504 {
        return true;
    }
    if status == 500 && (text_contains(low, "internal") || text_contains(low, "timeout")
        || text_contains(low, "temporary")) {
        return true;
    }
    transport
}

/// Whether an error of the given status and lower-case message will stay.
pub fn will_stay(status: u16, low: &str) -> (stays: bool)
    ensures
        stays == hopeless(status, low@),
{
    if status == 400 || status == 401 || status == 403 || status == 404 || status == 409 {
        return !text_contains(low, "out of host capacity");
    }
    text_contains(low, "limitexceeded") && !text_contains(low, "out of host capacity")
}

impl ApiError {
    /// The status that the service answered with, or zero.
    pub fn status(&self) -> (status: u16)
        ensures
            status == self@.status(),
    {
        match self {
            ApiError::Http { status, .. } => *status,
            _ => 0,
        }
    }

    /// The text of the error.
    pub fn message(&self) -> (message: String)
        ensures
            message@ == self@.message(),
    {
        match self {
            ApiError::Http { message, .. } => message.clone(),
            ApiError::Transport(m) => m.clone(),
            ApiError::Other(m) => m.clone(),
        }
    }

    /// Whether the service asks for fewer requests.
    pub fn is_rate_limited(&self) -> (limited: bool)
        ensures
            limited == self@.rate_limited(),
    {
        self.status() == 429
    }

    /// Whether another try may succeed.
    pub fn is_retryable(&self) -> (retryable: bool)
        ensures
            retryable == self@.retryable(),
            is_plain(self@.message()) ==> retryable == worth_retrying(
                self@.status(),
                plain_lowercase(self@.message()),
                self@ is Transport,
            ),
            self@.passing() ==> retryable,
            self@.lacks_room() ==> contains(lowercase(self@.message()), capacity_notice()),
    {
        proof {
            lemma_low_words();
        }
        let transport: bool = match self {
            ApiError::Transport(_) => true,
            _ => false,
        };
        let low: String = lowered(self.message().as_str());
        may_pass(self.status(), low.as_str(), transport)
    }

    /// Whether no further try can succeed.
    pub fn is_non_retryable(&self) -> (hopeless: bool)
        ensures
            hopeless == self@.non_retryable(),
            is_plain(self@.message()) ==> hopeless == self::hopeless(
                self@.status(),
                plain_lowercase(self@.message()),
            ),
            self@.lacks_room() ==> !hopeless,
            self@.lacks_room() ==> contains(lowercase(self@.message()), capacity_notice()),
            mentions(self@.message(), "limitexceeded"@) ==> hopeless || contains(
                lowercase(self@.message()),
                capacity_notice(),
            ),
    {
        proof {
            lemma_low_words();
        }
        let low: String = lowered(self.message().as_str());
        will_stay(self.status(), low.as_str())
    }
}

/// A region without room is always worth another try: its error is retried
/// and never given up on. The message is taken in lower case; that it holds the
/// notice wherever the message mentions it in any case, `ApiError::is_retryable`
/// ensures.
pub proof fn law_capacity_is_retried(message: Seq<char>)
    requires
        contains(lowercase(message), capacity_notice()),
    ensures
        (ErrorView::Http { status: 500, message }).retryable(),
        forall|e: ErrorView| #[trigger] e.message() == message ==> !e.non_retryable(),
{
}

/// A refused request is given up on, unless the message tells of a region
/// without room; and it is never one to retry.
pub proof fn law_refusal_is_final(status: u16, message: Seq<char>)
    requires
        status == 400 || status == 401 || status == 403 || status == 404 || status == 409,
    ensures
        ({
            let e = ErrorView::Http { status, message };
            &&& e.non_retryable() <==> !contains(lowercase(message), capacity_notice())
            &&& !e.retryable()
        }),
{
}

/// A rate limit is worth another try.
pub proof fn law_rate_limit_is_retried(e: ErrorView)
    requires
        e.rate_limited(),
    ensures
        e.retryable(),
{
}

/// An error that is neither the service's answer nor a failure on the way is
/// never retried.
pub proof fn law_other_is_not_retried(message: Seq<char>)
    ensures
        !ErrorView::Other(message).retryable(),
        ErrorView::Transport(message).retryable(),
{
}


/// An error is final only where the service refuses the request or the message
/// tells of a limit; every other error is not, whatever it says.
pub proof fn law_only_refusals_and_limits_are_final(status: u16, message: Seq<char>)
    ensures
        (ErrorView::Http { status, message }).non_retryable() ==> status == 400 || status == 401
            || status == 403 || status == 404 || status == 409 || contains(
            lowercase(message),
            "limitexceeded"@,
        ),
        ErrorView::Transport(message).non_retryable() ==> contains(
            lowercase(message),
            "limitexceeded"@,
        ),
        ErrorView::Other(message).non_retryable() ==> contains(
            lowercase(message),
            "limitexceeded"@,
        ),
{
}

/// A limit that is used up is final, whatever the status, unless the message
/// tells of a region without room.
pub proof fn law_limits_are_final(status: u16, message: Seq<char>)
    requires
        contains(lowercase(message), "limitexceeded"@),
    ensures
        (ErrorView::Http { status, message }).non_retryable() <==> !contains(
            lowercase(message),
            "out of host capacity"@,
        ),
        ErrorView::Transport(message).non_retryable() <==> !contains(
            lowercase(message),
            "out of host capacity"@,
        ),
        ErrorView::Other(message).non_retryable() <==> !contains(
            lowercase(message),
            "out of host capacity"@,
        ),
{
}

/// An answer of the service is retried only where its status is that of a rate
/// limit or of a gateway in trouble, or is 500 with a message that tells of a
/// region without room or a passing fault.
pub proof fn law_only_passing_errors_are_retried(status: u16, message: Seq<char>)
    requires
        (ErrorView::Http { status, message }).retryable(),
        status != 429,
        !(502 <= status <= 504),
    ensures
        status == 500,
        contains(lowercase(message), "out of host capacity"@) || contains(
            lowercase(message),
            "internal"@,
        ) || contains(lowercase(message), "timeout"@) || contains(
            lowercase(message),
            "temporary"@,
        ),
{
}

/// Every passing error is retried: a rate limit, a gateway in trouble, and a 500
/// whose message tells of a region without room or a passing fault.
pub proof fn law_passing_errors_are_retried(status: u16, message: Seq<char>)
    requires
        status == 429 || 502 <= status <= 504 || status == 500 && (contains(
            lowercase(message),
            "out of host capacity"@,
        ) || contains(lowercase(message), "internal"@) || contains(
            lowercase(message),
            "timeout"@,
        ) || contains(lowercase(message), "temporary"@)),
    ensures
        (ErrorView::Http { status, message }).retryable(),
{
}

/// A rate limit is an answer of status 429 and nothing else.
pub proof fn law_rate_limit_is_a_status(e: ErrorView, message: Seq<char>, status: u16)
    ensures
        (ErrorView::Http { status, message }).rate_limited() <==> status == 429,
        !(e is Http) ==> !e.rate_limited(),
        !(e is Http) ==> e.status() == 0,
        (ErrorView::Http { status, message }).status() == status,
        (ErrorView::Http { status, message }).message() == message,
        ErrorView::Transport(message).message() == message,
        ErrorView::Other(message).message() == message,
{
}

} // verus!
