//! The network that an instance is put in: finding one, or making one.

use vstd::prelude::*;

use crate::error::{ApiError, ErrorView};
use crate::flow::{
    asks, concat, get_call, get_view, no_query, reads, Answer, AnswerView,
    Query, Turn, TurnView,
};
use crate::json::{
    bool_field, get_bool, get_str, get_str_or_empty, into_items, items_of, text_field,
    text_or_empty, trees, Json, JsonTree,
};
use crate::request::{answer_view, ApiCall, CallView};

verus! {

/// How often a resource is asked for before it is given up on.
pub const MAX_POLLS: u32 = 120;

/// How long is rested between two such questions, in seconds.
pub const POLL_REST: u64 = 5;

/// Waiting for a resource that was just made.
pub struct WaitAvailable {
    pub host: String,
    pub path: String,
    /// What is waited for, by the name that complaints give it.
    pub what: String,
    /// How many answers came before.
    pub polls: u32,
}

/// What is waited for, and how often it was asked for.
#[verifier::ext_equal]
pub struct WaitView {
    pub host: Seq<char>,
    pub path: Seq<char>,
    pub what: Seq<char>,
    pub polls: int,
}

impl View for WaitAvailable {
    type V = WaitView;

    open spec fn view(&self) -> WaitView {
        WaitView {
            host: self.host@,
            path: self.path@,
            what: self.what@,
            polls: self.polls as int,
        }
    }
}

/// The state that a resource is in, as it says itself.
pub open spec fn state_is(tree: JsonTree, state: Seq<char>) -> bool {
    text_field(tree, "lifecycleState"@) == Some(state)
}

/// Whether a resource is ready for use.
pub open spec fn is_available(tree: JsonTree) -> bool {
    state_is(tree, "AVAILABLE"@)
}

/// Whether a resource will never be ready for use.
pub open spec fn is_lost(tree: JsonTree) -> bool {
    state_is(tree, "TERMINATED"@) || state_is(tree, "FAILED"@)
}

/// The complaint about a resource that is not there in time.
pub open spec fn timed_out(what: Seq<char>) -> ErrorView {
    ErrorView::Other("timed out waiting for "@ + what + " to be AVAILABLE"@)
}

impl WaitView {
    /// The question whether the resource is there.
    pub open spec fn call(self) -> CallView {
        get_view(self.host, self.path, no_query())
    }

    /// What an answer comes to: the resource is there, or lost, or is asked for
    /// again, unless it was asked for often enough.
    pub open spec fn next(self, answer: AnswerView) -> TurnView<WaitView, JsonTree> {
        match answer {
            Err(error) => TurnView::Stop { after: 0, error },
            Ok(tree) => if is_available(tree) {
                TurnView::Done(tree)
            } else if is_lost(tree) {
                TurnView::Stop {
                    after: 0,
                    error: ErrorView::Other(self.what + " reached failed state"@),
                }
            } else if self.polls + 1 < MAX_POLLS {
                TurnView::Go {
                    state: WaitView { polls: self.polls + 1, ..self },
                    after: POLL_REST,
                    call: self.call(),
                }
            } else {
                TurnView::Stop {
                    after: POLL_REST,
                    error: timed_out(self.what),
                }
            },
        }
    }
}

impl WaitAvailable {
    /// Starts waiting.
    pub fn start(host: &str, path: String, what: &str) -> (begun: (WaitAvailable, ApiCall))
        ensures
            begun.0@ == (WaitView { host: host@, path: path@, what: what@, polls: 0 }),
            begun.1@ == begun.0@.call(),
    {
        let call: ApiCall = get_call(host, path.clone(), Query::new());
        (WaitAvailable { host: host.to_owned(), path, what: what.to_owned(), polls: 0 }, call)
    }

    /// Takes an answer.
    pub fn wait_available(self, answer: Answer) -> (turn: Turn<WaitAvailable, Json>)
        ensures
            turn@ == self@.next(answer_view(answer)),
    {
        let v: Json = match answer {
            Ok(v) => v,
            Err(error) => return Turn::Stop { after: 0, error },
        };
        let state: Option<String> = get_str(&v, "lifecycleState");
        if reads(&state, "AVAILABLE") {
            Turn::Done(v)
        } else if reads(&state, "TERMINATED") || reads(&state, "FAILED") {
            Turn::Stop {
                after: 0,
                error: ApiError::Other(concat(self.what.as_str(), " reached failed state")),
            }
        } else if self.polls < MAX_POLLS - 1 {
            let call: ApiCall = get_call(self.host.as_str(), self.path.clone(), Query::new());
            Turn::Go {
                state: WaitAvailable {
                    host: self.host,
                    path: self.path,
                    what: self.what,
                    polls: self.polls + 1,
                },
                after: POLL_REST,
                call,
            }
        } else {
            let complaint: String = concat("timed out waiting for ", self.what.as_str());
            Turn::Stop {
                after: POLL_REST,
                error: ApiError::Other(concat(complaint.as_str(), " to be AVAILABLE")),
            }
        }
    }
}

/// What the answers to a wait come to, one after the other.
pub open spec fn wait_outcome(wait: WaitView, answers: Seq<AnswerView>) -> TurnView<
    WaitView,
    JsonTree,
>
    decreases answers.len(),
{
    if answers.len() == 0 {
        TurnView::Go { state: wait, after: 0, call: wait.call() }
    } else {
        match wait.next(answers[0]) {
            TurnView::Go { state, after, call } => if answers.len() == 1 {
                TurnView::Go { state, after, call }
            } else {
                wait_outcome(state, answers.drop_first())
            },
            turn => turn,
        }
    }
}

/// Whether an answer shows a resource that is neither ready nor lost.
pub open spec fn is_pending(answer: AnswerView) -> bool {
    answer matches Ok(tree) && !is_available(tree) && !is_lost(tree)
}

/// A wait ends with the first answer that shows the resource ready.
pub proof fn law_wait_ends_when_available(wait: WaitView, answers: Seq<AnswerView>, n: int)
    requires
        0 <= n < answers.len(),
        wait.polls + n < MAX_POLLS,
        forall|i: int| 0 <= i < n ==> is_pending(#[trigger] answers[i]),
        answers[n] is Ok,
        is_available(answers[n]->Ok_0),
    ensures
        wait_outcome(wait, answers) is Done,
        wait_outcome(wait, answers)->Done_0 == answers[n]->Ok_0,
    decreases n,
{
    if n > 0 {
        assert(is_pending(answers[0]));
        let rest = answers.drop_first();
        assert forall|i: int| 0 <= i < n - 1 implies is_pending(#[trigger] rest[i]) by {
            assert(rest[i] == answers[i + 1]);
        }
        law_wait_ends_when_available(
            WaitView { polls: wait.polls + 1, ..wait },
            rest,
            n - 1,
        );
    }
}

/// A wait is given up on after so many answers that show the resource neither
/// ready nor lost, and not before.
pub proof fn law_wait_is_bounded(wait: WaitView, answers: Seq<AnswerView>)
    requires
        0 <= wait.polls < MAX_POLLS,
        0 < answers.len() <= MAX_POLLS - wait.polls,
        forall|i: int| 0 <= i < answers.len() ==> is_pending(#[trigger] answers[i]),
    ensures
        wait_outcome(wait, answers) is Go <==> wait.polls + answers.len() < MAX_POLLS,
        wait.polls + answers.len() == MAX_POLLS ==> wait_outcome(wait, answers) is Stop
            && wait_outcome(wait, answers)->error == timed_out(wait.what),
    decreases answers.len(),
{
    assert(is_pending(answers[0]));
    if answers.len() > 1 {
        let rest = answers.drop_first();
        assert forall|i: int| 0 <= i < rest.len() implies is_pending(#[trigger] rest[i]) by {
            assert(rest[i] == answers[i + 1]);
        }
        law_wait_is_bounded(WaitView { polls: wait.polls + 1, ..wait }, rest);
    }
}

/// Whether a subnet is ready for use and lets instances have public addresses.
pub open spec fn is_public_subnet(tree: JsonTree) -> bool {
    is_available(tree) && bool_field(tree, "prohibitPublicIpOnVnic"@) == Some(false)
}

/// The first position at or behind `from` whose item is ready for use, or the
/// number of items.
pub open spec fn next_available(items: Seq<JsonTree>, from: int) -> int
    decreases items.len() - from,
{
    if from < 0 || from >= items.len() {
        items.len() as int
    } else if is_available(items[from]) {
        from
    } else {
        next_available(items, from + 1)
    }
}

/// The first position at or behind `from` whose item is a public subnet, or the
/// number of items.
pub open spec fn next_public(items: Seq<JsonTree>, from: int) -> int
    decreases items.len() - from,
{
    if from < 0 || from >= items.len() {
        items.len() as int
    } else if is_public_subnet(items[from]) {
        from
    } else {
        next_public(items, from + 1)
    }
}

fn available(v: &Json) -> (yes: bool)
    ensures
        yes == is_available(v@),
{
    reads(&get_str(v, "lifecycleState"), "AVAILABLE")
}

fn public_subnet(v: &Json) -> (yes: bool)
    ensures
        yes == is_public_subnet(v@),
{
    let prohibited: bool = match get_bool(v, "prohibitPublicIpOnVnic") {
        Some(b) => b,
        None => true,
    };
    available(v) && !prohibited
}

pub(crate) fn find_available(items: &Vec<Json>, from: usize) -> (at: usize)
    requires
        from <= items@.len(),
    ensures
        from <= at <= items@.len(),
        at == next_available(trees(items@), from as int),
        at < items@.len() ==> is_available(items@[at as int]@),
{
    let mut at: usize = from;
    while at < items.len()
        invariant
            from <= at <= items@.len(),
            next_available(trees(items@), from as int) == next_available(
                trees(items@),
                at as int,
            ),
        decreases items@.len() - at,
    {
        if available(&items[at]) {
            return at;
        }
        at = at + 1;
    }
    at
}

pub(crate) fn find_public(items: &Vec<Json>) -> (at: usize)
    ensures
        at <= items@.len(),
        at == next_public(trees(items@), 0),
{
    let mut at: usize = 0;
    while at < items.len()
        invariant
            at <= items@.len(),
            next_public(trees(items@), 0) == next_public(trees(items@), at as int),
        decreases items@.len() - at,
    {
        if public_subnet(&items[at]) {
            return at;
        }
        at = at + 1;
    }
    at
}

/// The item at `at`.
pub(crate) fn take_item(items: Vec<Json>, at: usize) -> (item: Json)
    requires
        at < items@.len(),
    ensures
        item@ == trees(items@)[at as int],
{
    let mut items: Vec<Json> = items;
    items.swap_remove(at)
}

/// The question for the networks of a compartment.
pub open spec fn vcns_view(host: Seq<char>, compartment: Seq<char>) -> CallView {
    get_view(host, "/20160918/vcns"@, no_query().push(("compartmentId"@, compartment)))
}

/// The question for the subnets of a network.
pub open spec fn subnets_view(
    host: Seq<char>,
    compartment: Seq<char>,
    vcn_id: Seq<char>,
) -> CallView {
    get_view(
        host,
        "/20160918/subnets"@,
        no_query().push(("compartmentId"@, compartment)).push(("vcnId"@, vcn_id)),
    )
}

pub(crate) fn subnets_call(host: &str, compartment: &str, vcn_id: &str) -> (call: ApiCall)
    ensures
        call@ == subnets_view(host@, compartment@, vcn_id@),
{
    get_call(
        host,
        "/20160918/subnets".to_owned(),
        Query::new().with("compartmentId", compartment).with("vcnId", vcn_id),
    )
}

/// How far a search for a network is.
pub enum SearchStage {
    /// The networks are asked for.
    Vcns,
    /// The subnets of `vcn` are asked for; those of `rest` may follow.
    Subnets { vcn: Json, rest: Vec<Json> },
}

/// A search for a network with a public subnet.
pub struct NetworkSearch {
    pub host: String,
    pub compartment: String,
    pub stage: SearchStage,
}

/// How far a search is.
pub enum SearchStageView {
    Vcns,
    Subnets { vcn: JsonTree, rest: Seq<JsonTree> },
}

/// Where a search is made, and how far it is.
pub struct SearchView {
    pub host: Seq<char>,
    pub compartment: Seq<char>,
    pub stage: SearchStageView,
}

impl View for NetworkSearch {
    type V = SearchView;

    open spec fn view(&self) -> SearchView {
        SearchView {
            host: self.host@,
            compartment: self.compartment@,
            stage: match self.stage {
                SearchStage::Vcns => SearchStageView::Vcns,
                SearchStage::Subnets { vcn, rest } => SearchStageView::Subnets {
                    vcn: vcn@,
                    rest: trees(rest@),
                },
            },
        }
    }
}

/// What a search brought.
#[derive(Debug, PartialEq)]
pub enum Found {
    Nothing,
    Network { vcn: Json, subnet: Json },
}

/// What a search brought.
pub enum FoundView {
    Nothing,
    Network { vcn: JsonTree, subnet: JsonTree },
}

impl View for Found {
    type V = FoundView;

    open spec fn view(&self) -> FoundView {
        match self {
            Found::Nothing => FoundView::Nothing,
            Found::Network { vcn, subnet } => FoundView::Network { vcn: vcn@, subnet: subnet@ },
        }
    }
}

impl SearchView {
    /// What comes next in a search that has yet to look at `vcns`.
    pub open spec fn look(self, vcns: Seq<JsonTree>) -> TurnView<SearchView, FoundView> {
        let at = next_available(vcns, 0);
        if at < vcns.len() {
            TurnView::Go {
                state: SearchView {
                    stage: SearchStageView::Subnets { vcn: vcns[at], rest: vcns.skip(at + 1) },
                    ..self
                },
                after: 0,
                call: subnets_view(
                    self.host,
                    self.compartment,
                    text_or_empty(vcns[at], "id"@),
                ),
            }
        } else {
            TurnView::Done(FoundView::Nothing)
        }
    }

    /// What an answer comes to: the first public subnet, or the next network
    /// that is ready for use, or nothing.
    pub open spec fn next(self, answer: AnswerView) -> TurnView<SearchView, FoundView> {
        match answer {
            Err(error) => TurnView::Stop { after: 0, error },
            Ok(tree) => match self.stage {
                SearchStageView::Vcns => self.look(items_of(tree)),
                SearchStageView::Subnets { vcn, rest } => {
                    let subnets = items_of(tree);
                    let at = next_public(subnets, 0);
                    if at < subnets.len() {
                        TurnView::Done(FoundView::Network { vcn, subnet: subnets[at] })
                    } else {
                        self.look(rest)
                    }
                },
            },
        }
    }
}

impl NetworkSearch {
    /// Starts a search.
    pub fn start(host: &str, compartment: &str) -> (begun: (NetworkSearch, ApiCall))
        ensures
            begun.0@ == (SearchView {
                host: host@,
                compartment: compartment@,
                stage: SearchStageView::Vcns,
            }),
            begun.1@ == vcns_view(host@, compartment@),
    {
        let call: ApiCall = get_call(
            host,
            "/20160918/vcns".to_owned(),
            Query::new().with("compartmentId", compartment),
        );
        let search: NetworkSearch = NetworkSearch {
            host: host.to_owned(),
            compartment: compartment.to_owned(),
            stage: SearchStage::Vcns,
        };
        (search, call)
    }

    fn look(host: String, compartment: String, vcns: Vec<Json>) -> (turn: Turn<
        NetworkSearch,
        Found,
    >)
        ensures
            forall|stage: SearchStageView|
                turn@ == (#[trigger] (SearchView {
                    host: host@,
                    compartment: compartment@,
                    stage,
                }).look(trees(vcns@))),
    {
        let ghost all = trees(vcns@);
        let at: usize = find_available(&vcns, 0);
        if at == vcns.len() {
            return Turn::Done(Found::Nothing);
        }
        let mut front: Vec<Json> = vcns;
        let rest: Vec<Json> = front.split_off(at + 1);
        assert(trees(rest@) =~= all.skip(at + 1));
        let vcn: Json = take_item(front, at);
        let vcn_id: String = get_str_or_empty(&vcn, "id");
        let call: ApiCall = subnets_call(host.as_str(), compartment.as_str(), vcn_id.as_str());
        Turn::Go {
            state: NetworkSearch { host, compartment, stage: SearchStage::Subnets { vcn, rest } },
            after: 0,
            call,
        }
    }

    /// Takes an answer.
    pub fn find_existing_network(self, answer: Answer) -> (turn: Turn<NetworkSearch, Found>)
        ensures
            turn@ == self@.next(answer_view(answer)),
    {
        let v: Json = match answer {
            Ok(v) => v,
            Err(error) => return Turn::Stop { after: 0, error },
        };
        let items: Vec<Json> = into_items(v);
        match self.stage {
            SearchStage::Vcns => NetworkSearch::look(self.host, self.compartment, items),
            SearchStage::Subnets { vcn, rest } => {
                let at: usize = find_public(&items);
                if at < items.len() {
                    Turn::Done(Found::Network { vcn, subnet: take_item(items, at) })
                } else {
                    NetworkSearch::look(self.host, self.compartment, rest)
                }
            },
        }
    }
}

/// `next_available` gives the first item that is ready for use.
pub proof fn lemma_next_available(items: Seq<JsonTree>, from: int)
    requires
        0 <= from <= items.len(),
    ensures
        from <= next_available(items, from) <= items.len(),
        next_available(items, from) < items.len() ==> is_available(
            items[next_available(items, from)],
        ),
        forall|i: int|
            from <= i < next_available(items, from) ==> !is_available(#[trigger] items[i]),
    decreases items.len() - from,
{
    if from < items.len() && !is_available(items[from]) {
        lemma_next_available(items, from + 1);
    }
}

/// `next_public` gives the first public subnet.
pub proof fn lemma_next_public(items: Seq<JsonTree>, from: int)
    requires
        0 <= from <= items.len(),
    ensures
        from <= next_public(items, from) <= items.len(),
        next_public(items, from) < items.len() ==> is_public_subnet(
            items[next_public(items, from)],
        ),
        forall|i: int|
            from <= i < next_public(items, from) ==> !is_public_subnet(#[trigger] items[i]),
    decreases items.len() - from,
{
    if from < items.len() && !is_public_subnet(items[from]) {
        lemma_next_public(items, from + 1);
    }
}

/// What a search that has yet to look at `vcns` brings, where `world` tells how
/// the service answers.
pub open spec fn search_rest(
    search: SearchView,
    vcns: Seq<JsonTree>,
    world: spec_fn(CallView) -> AnswerView,
) -> Result<FoundView, ErrorView>
    decreases vcns.len(),
{
    proof {
        lemma_next_available(vcns, 0);
    }
    match search.look(vcns) {
        TurnView::Done(found) => Ok(found),
        TurnView::Stop { error, .. } => Err(error),
        TurnView::Go { state, call, .. } => match state.next(world(call)) {
            TurnView::Done(found) => Ok(found),
            TurnView::Stop { error, .. } => Err(error),
            TurnView::Go { .. } => search_rest(
                search,
                vcns.skip(next_available(vcns, 0) + 1),
                world,
            ),
        },
    }
}

/// What a search brings, where `world` tells how the service answers.
pub open spec fn search_outcome(
    search: SearchView,
    world: spec_fn(CallView) -> AnswerView,
) -> Result<FoundView, ErrorView> {
    match world(vcns_view(search.host, search.compartment)) {
        Err(error) => Err(error),
        Ok(tree) => search_rest(search, items_of(tree), world),
    }
}

/// How the service answers the question for the subnets of `vcn`.
pub open spec fn subnets_answer(
    search: SearchView,
    vcn: JsonTree,
    world: spec_fn(CallView) -> AnswerView,
) -> AnswerView {
    world(subnets_view(search.host, search.compartment, text_or_empty(vcn, "id"@)))
}

/// Whether `vcn` is ready for use and has a public subnet.
pub open spec fn has_public_subnet(
    search: SearchView,
    vcn: JsonTree,
    world: spec_fn(CallView) -> AnswerView,
) -> bool {
    &&& is_available(vcn)
    &&& subnets_answer(search, vcn, world) matches Ok(tree)
    &&& exists|i: int|
        0 <= i < items_of(tree).len() && is_public_subnet(#[trigger] items_of(tree)[i])
}

/// The first public subnet of `vcn`.
pub open spec fn first_public(
    search: SearchView,
    vcn: JsonTree,
    world: spec_fn(CallView) -> AnswerView,
) -> JsonTree {
    let subnets = items_of(subnets_answer(search, vcn, world)->Ok_0);
    subnets[next_public(subnets, 0)]
}

/// Whether the network at `n` is the first that is ready for use and has a public
/// subnet.
pub open spec fn comes_first(
    search: SearchView,
    vcns: Seq<JsonTree>,
    world: spec_fn(CallView) -> AnswerView,
    n: int,
) -> bool {
    &&& has_public_subnet(search, vcns[n], world)
    &&& forall|i: int| 0 <= i < n ==> !has_public_subnet(search, #[trigger] vcns[i], world)
}

/// Whether `found` is what there is among `vcns`: the first network that is ready
/// for use and has a public subnet, with the first such subnet; or nothing, where
/// there is none.
pub open spec fn brings(
    search: SearchView,
    vcns: Seq<JsonTree>,
    world: spec_fn(CallView) -> AnswerView,
    found: FoundView,
) -> bool {
    match found {
        FoundView::Nothing => forall|i: int|
            0 <= i < vcns.len() ==> !has_public_subnet(search, #[trigger] vcns[i], world),
        FoundView::Network { vcn, subnet } => exists|n: int|
            #![trigger vcns[n]]
            0 <= n < vcns.len() && comes_first(search, vcns, world, n) && vcn == vcns[n]
                && subnet == first_public(search, vcn, world),
    }
}

proof fn lemma_search_rest(
    search: SearchView,
    vcns: Seq<JsonTree>,
    world: spec_fn(CallView) -> AnswerView,
)
    ensures
        search_rest(search, vcns, world) matches Ok(found) ==> brings(search, vcns, world, found),
        search_rest(search, vcns, world) matches Err(error) ==> exists|n: int|
            0 <= n < vcns.len() && subnets_answer(search, #[trigger] vcns[n], world) == Err::<
                JsonTree,
                ErrorView,
            >(error),
    decreases vcns.len(),
{
    lemma_next_available(vcns, 0);
    let at = next_available(vcns, 0);
    if at < vcns.len() {
        let rest = vcns.skip(at + 1);
        lemma_search_rest(search, rest, world);
        match subnets_answer(search, vcns[at], world) {
            Err(_) => {},
            Ok(tree) => {
                let subnets = items_of(tree);
                lemma_next_public(subnets, 0);
                let first = next_public(subnets, 0);
                if first < subnets.len() {
                    assert(is_public_subnet(subnets[first]));
                    assert(has_public_subnet(search, vcns[at], world));
                } else {
                    assert(!has_public_subnet(search, vcns[at], world));
                    assert(search_rest(search, vcns, world) == search_rest(search, rest, world));
                    match search_rest(search, rest, world) {
                        Ok(FoundView::Nothing) => {
                            assert forall|i: int| 0 <= i < vcns.len() implies !has_public_subnet(
                                search,
                                #[trigger] vcns[i],
                                world,
                            ) by {
                                if i > at {
                                    assert(rest[i - at - 1] == vcns[i]);
                                }
                            }
                        },
                        Ok(FoundView::Network { vcn, subnet }) => {
                            let n = choose|n: int|
                                #![trigger rest[n]]
                                0 <= n < rest.len() && comes_first(
                                    search,
                                    rest,
                                    world,
                                    n,
                                ) && vcn == rest[n] && subnet == first_public(search, vcn, world);
                            assert(vcns[n + at + 1] == rest[n]);
                            assert forall|i: int| 0 <= i < n + at + 1 implies !has_public_subnet(
                                search,
                                #[trigger] vcns[i],
                                world,
                            ) by {
                                if i > at {
                                    assert(rest[i - at - 1] == vcns[i]);
                                }
                            }
                        },
                        Err(error) => {
                            let n = choose|n: int|
                                0 <= n < rest.len() && subnets_answer(
                                    search,
                                    #[trigger] rest[n],
                                    world,
                                ) == Err::<JsonTree, ErrorView>(error);
                            assert(vcns[n + at + 1] == rest[n]);
                        },
                    }
                }
            },
        }
    }
}

/// A search brings the first network that is ready for use and has a public
/// subnet, with the first such subnet, and nothing where there is none. It ends
/// with an error only where the service answers a question with that error.
pub proof fn law_search_is_exact(search: SearchView, world: spec_fn(CallView) -> AnswerView)
    ensures
        match (world(vcns_view(search.host, search.compartment)), search_outcome(search, world)) {
            (Err(error), outcome) => outcome == Err::<FoundView, ErrorView>(error),
            (Ok(tree), Ok(found)) => brings(search, items_of(tree), world, found),
            (Ok(tree), Err(error)) => exists|n: int|
                0 <= n < items_of(tree).len() && subnets_answer(
                    search,
                    #[trigger] items_of(tree)[n],
                    world,
                ) == Err::<JsonTree, ErrorView>(error),
        },
{
    match world(vcns_view(search.host, search.compartment)) {
        Ok(tree) => lemma_search_rest(search, items_of(tree), world),
        Err(_) => {},
    }
}

/// A resource is in the state that it tells of itself; it is ready for use where
/// that is `AVAILABLE`, and lost where it is `TERMINATED` or `FAILED`.
pub proof fn law_states_are_told(tree: JsonTree, state: Seq<char>)
    ensures
        state_is(tree, state) <==> text_field(tree, "lifecycleState"@) == Some(state),
        is_available(tree) <==> text_field(tree, "lifecycleState"@) == Some("AVAILABLE"@),
        is_lost(tree) <==> text_field(tree, "lifecycleState"@) == Some("TERMINATED"@) || text_field(
            tree,
            "lifecycleState"@,
        ) == Some("FAILED"@),
{
}

/// A subnet is public exactly where it is ready for use and says that it does not
/// prohibit public addresses; one that does not say so is not.
pub proof fn law_public_subnets_say_so(tree: JsonTree)
    ensures
        is_public_subnet(tree) <==> text_field(tree, "lifecycleState"@) == Some("AVAILABLE"@)
            && bool_field(tree, "prohibitPublicIpOnVnic"@) == Some(false),
{
}

/// A wait ends well exactly where the resource is available, and badly at once
/// where it is terminated or failed or the service answers with an error. Else
/// the same question is put again after five seconds, up to the hundred and
/// twentieth answer, after which the wait is given up on.
pub proof fn law_wait_asks_again_while_pending(wait: WaitView, answer: AnswerView)
    ensures
        ({
            let turn = wait.next(answer);
            match answer {
                Err(error) => turn is Stop && turn->error == error && turn->Stop_after == 0,
                Ok(tree) => {
                    let state = text_field(tree, "lifecycleState"@);
                    let pending = state != Some("AVAILABLE"@) && state != Some("TERMINATED"@)
                        && state != Some("FAILED"@);
                    &&& turn is Done <==> state == Some("AVAILABLE"@)
                    &&& turn is Done ==> turn->Done_0 == tree
                    &&& turn is Go <==> pending && wait.polls + 1 < 120
                    &&& turn is Go ==> {
                        &&& turn->Go_after == 5
                        &&& turn->state == (WaitView { polls: wait.polls + 1, ..wait })
                        &&& asks(turn->call, wait.host, wait.path, seq![])
                    }
                    &&& turn is Stop && pending ==> turn->Stop_after == 5 && turn->error
                        == ErrorView::Other(
                        "timed out waiting for "@ + wait.what + " to be AVAILABLE"@,
                    )
                    &&& turn is Stop && !pending ==> turn->Stop_after == 0 && turn->error
                        == ErrorView::Other(wait.what + " reached failed state"@)
                },
            }
        }),
        asks(wait.call(), wait.host, wait.path, seq![]),
{
    reveal_strlit("AVAILABLE");
    reveal_strlit("TERMINATED");
    reveal_strlit("FAILED");
    assert("AVAILABLE"@.len() != "TERMINATED"@.len());
    assert("AVAILABLE"@.len() != "FAILED"@.len());
}

/// Networks are asked for by compartment, and subnets by compartment and network.
pub proof fn law_networks_are_asked_for(
    host: Seq<char>,
    compartment: Seq<char>,
    vcn_id: Seq<char>,
)
    ensures
        asks(
            vcns_view(host, compartment),
            host,
            "/20160918/vcns"@,
            seq![("compartmentId"@, compartment)],
        ),
        asks(
            subnets_view(host, compartment, vcn_id),
            host,
            "/20160918/subnets"@,
            seq![("compartmentId"@, compartment), ("vcnId"@, vcn_id)],
        ),
{
}

/// What a search that has yet to look at `vcns` does: it asks for the subnets of
/// the first that is available, by its identifier, and keeps it and those behind
/// it; where none is available, it ends with nothing.
pub open spec fn searches_first(
    search: SearchView,
    vcns: Seq<JsonTree>,
    turn: TurnView<SearchView, FoundView>,
) -> bool {
    match turn {
        TurnView::Go { state, after, call } => exists|n: int|
            {
                &&& 0 <= n < vcns.len()
                &&& text_field(#[trigger] vcns[n], "lifecycleState"@) == Some("AVAILABLE"@)
                &&& forall|i: int|
                    0 <= i < n ==> text_field(#[trigger] vcns[i], "lifecycleState"@) != Some(
                        "AVAILABLE"@,
                    )
                &&& asks(
                    call,
                    search.host,
                    "/20160918/subnets"@,
                    seq![
                        ("compartmentId"@, search.compartment),
                        ("vcnId"@, text_or_empty(vcns[n], "id"@)),
                    ],
                )
                &&& after == 0
                &&& state == (SearchView {
                    stage: SearchStageView::Subnets { vcn: vcns[n], rest: vcns.skip(n + 1) },
                    ..search
                })
            },
        TurnView::Done(found) => found is Nothing && forall|i: int|
            0 <= i < vcns.len() ==> text_field(#[trigger] vcns[i], "lifecycleState"@) != Some(
                "AVAILABLE"@,
            ),
        TurnView::Stop { .. } => false,
    }
}

proof fn lemma_searches_first(search: SearchView, vcns: Seq<JsonTree>)
    ensures
        searches_first(search, vcns, search.look(vcns)),
{
    lemma_next_available(vcns, 0);
    let at = next_available(vcns, 0);
    assert forall|i: int| 0 <= i < at implies text_field(
        #[trigger] vcns[i],
        "lifecycleState"@,
    ) != Some("AVAILABLE"@) by {
        assert(!is_available(vcns[i]));
    }
    if at < vcns.len() {
        assert(is_available(vcns[at]));
    }
}

/// A search looks at the networks in their order, at those that are available
/// only; it ends with the first public subnet of the network that it looks at,
/// goes on behind it where that has none, and fails with the errors of the
/// service.
pub proof fn law_search_takes_networks_in_order(search: SearchView, answer: AnswerView)
    ensures
        match (search.stage, answer) {
            (_, Err(error)) => search.next(answer) == (TurnView::<SearchView, FoundView>::Stop {
                after: 0,
                error,
            }),
            (SearchStageView::Vcns, Ok(tree)) => searches_first(
                search,
                items_of(tree),
                search.next(answer),
            ),
            (SearchStageView::Subnets { vcn, rest }, Ok(tree)) => {
                let subnets = items_of(tree);
                let turn = search.next(answer);
                ||| exists|n: int|
                    {
                        &&& 0 <= n < subnets.len()
                        &&& is_public_subnet(#[trigger] subnets[n])
                        &&& forall|i: int|
                            0 <= i < n ==> !is_public_subnet(#[trigger] subnets[i])
                        &&& turn == TurnView::<SearchView, FoundView>::Done(
                            FoundView::Network { vcn, subnet: subnets[n] },
                        )
                    }
                ||| (forall|i: int|
                    0 <= i < subnets.len() ==> !is_public_subnet(#[trigger] subnets[i]))
                    && searches_first(search, rest, turn)
            },
        },
{
    if answer is Ok {
        let items = items_of(answer->Ok_0);
        lemma_searches_first(search, items);
        lemma_next_public(items, 0);
        if next_public(items, 0) < items.len() {
            assert(is_public_subnet(items[next_public(items, 0)]));
        }
    }
    if search.stage is Subnets {
        lemma_searches_first(search, search.stage->rest);
    }
}

} // verus!
