//! Work that takes several requests: what to ask next, given each answer.

use vstd::prelude::*;

use crate::error::{ApiError, ErrorView};
use crate::json::{Json, JsonTree};
use crate::request::{pair_views, ApiCall, CallView};

verus! {

/// What comes next in a piece of work.
pub enum Turn<S, T> {
    /// After a rest of so many seconds, a request; its answer goes to `state`.
    Go { state: S, after: u64, call: ApiCall },
    /// The work is done.
    Done(T),
    /// After a rest of so many seconds, the work has failed.
    Stop { after: u64, error: ApiError },
}

/// What a turn comes to.
pub enum TurnView<S, T> {
    Go { state: S, after: u64, call: CallView },
    Done(T),
    Stop { after: u64, error: ErrorView },
}

impl<S: View, T: View> View for Turn<S, T> {
    type V = TurnView<S::V, T::V>;

    open spec fn view(&self) -> TurnView<S::V, T::V> {
        match self {
            Turn::Go { state, after, call } => TurnView::Go {
                state: state@,
                after: *after,
                call: call@,
            },
            Turn::Done(result) => TurnView::Done(result@),
            Turn::Stop { after, error } => TurnView::Stop { after: *after, error: error@ },
        }
    }
}

/// What the service answered.
pub type Answer = Result<Json, ApiError>;

/// What an answer says.
pub type AnswerView = Result<JsonTree, ErrorView>;

/// A request that reads something.
pub open spec fn get_view(
    host: Seq<char>,
    path: Seq<char>,
    query: Seq<(Seq<char>, Seq<char>)>,
) -> CallView {
    CallView { method: "GET"@, host, path, query, body: None, headers: Seq::empty() }
}

/// A request that makes or changes something.
pub open spec fn send_view(
    method: Seq<char>,
    host: Seq<char>,
    path: Seq<char>,
    body: JsonTree,
) -> CallView {
    CallView {
        method,
        host,
        path,
        query: Seq::empty(),
        body: Some(body),
        headers: Seq::empty(),
    }
}

/// A query without names.
pub open spec fn no_query() -> Seq<(Seq<char>, Seq<char>)> {
    Seq::empty()
}

/// The names and values of a query that is being written.
pub struct Query {
    pub pairs: Vec<(String, String)>,
}

impl Query {
    /// No names.
    pub fn new() -> (query: Query)
        ensures
            pair_views(query.pairs@) == no_query(),
    {
        let query: Query = Query { pairs: Vec::new() };
        assert(pair_views(query.pairs@) =~= no_query());
        query
    }

    /// This query, and one more name with its value.
    pub fn with(self, name: &str, value: &str) -> (query: Query)
        ensures
            pair_views(query.pairs@) == pair_views(self.pairs@).push((name@, value@)),
    {
        let mut pairs: Vec<(String, String)> = self.pairs;
        let ghost before = pairs@;
        pairs.push((name.to_owned(), value.to_owned()));
        assert(pair_views(pairs@) =~= pair_views(before).push((name@, value@)));
        Query { pairs }
    }
}

/// A request that reads something.
pub fn get_call(host: &str, path: String, query: Query) -> (call: ApiCall)
    ensures
        call@ == get_view(host@, path@, pair_views(query.pairs@)),
{
    let call: ApiCall = ApiCall {
        method: "GET".to_owned(),
        host: host.to_owned(),
        path,
        query: query.pairs,
        body: None,
        headers: Vec::new(),
    };
    assert(pair_views(call.headers@) =~= Seq::empty());
    call
}

/// A request that makes or changes something.
pub fn send_call(method: &str, host: &str, path: String, body: Json) -> (call: ApiCall)
    ensures
        call@ == send_view(method@, host@, path@, body@),
{
    let call: ApiCall = ApiCall {
        method: method.to_owned(),
        host: host.to_owned(),
        path,
        query: Vec::new(),
        body: Some(body),
        headers: Vec::new(),
    };
    assert(pair_views(call.headers@) =~= Seq::empty());
    assert(pair_views(call.query@) =~= Seq::empty());
    call
}

/// Two texts, one behind the other.
pub fn concat(a: &str, b: &str) -> (s: String)
    ensures
        s@ == a@ + b@,
{
    let mut s: String = a.to_owned();
    s.append(b);
    s
}

/// Whether an optional text reads `wanted`.
pub fn reads(text: &Option<String>, wanted: &str) -> (same: bool)
    ensures
        same == (text matches Some(s) && s@ == wanted@),
{
    match text {
        Some(s) => crate::text::same_text(s.as_str(), wanted),
        None => false,
    }
}

/// Whether a call reads what stands at a path, with the given query, and sends
/// nothing else.
pub open spec fn asks(
    call: CallView,
    host: Seq<char>,
    path: Seq<char>,
    query: Seq<(Seq<char>, Seq<char>)>,
) -> bool {
    &&& call.method == "GET"@
    &&& call.host == host
    &&& call.path == path
    &&& call.query =~= query
    &&& call.body is None
    &&& call.headers.len() == 0
}

/// Whether a call hands an object to a path, without a query.
pub open spec fn hands(
    call: CallView,
    method: Seq<char>,
    host: Seq<char>,
    path: Seq<char>,
) -> bool {
    &&& call.method == method
    &&& call.host == host
    &&& call.path == path
    &&& call.query.len() == 0
    &&& call.body is Some
    &&& call.body->0 is Object
}

/// Whether an object has no keys but these.
pub open spec fn has_only(tree: JsonTree, keys: Set<Seq<char>>) -> bool {
    tree is Object && tree->Object_0.dom().subset_of(keys)
}

} // verus!
