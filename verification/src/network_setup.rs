//! Making a network: the network itself, its way to the internet, and a public
//! subnet.

use vstd::prelude::*;

use crate::flow::{
    asks, concat, get_call, get_view, hands, has_only, no_query, send_call, send_view, Answer,
    AnswerView, Query, Turn, TurnView,
};
use crate::json::{
    bool_field, get_str_or_empty, into_items, items_in, items_of, json_text, no_fields, take_items,
    text_field, text_or_empty, trees, Fields, Json, JsonTree,
};
use crate::network::{
    find_available, find_public, is_available, is_public_subnet, lemma_next_available,
    lemma_next_public, next_available, next_public, subnets_call, subnets_view, take_item,
    WaitAvailable, WaitView, MAX_POLLS,
};
use crate::request::{answer_view, ApiCall, CallView};

verus! {

/// How far the making of a network is: what is asked for.
pub enum SetupStage {
    /// A network of the name that is given to new ones.
    FindVcn,
    /// The making of a network.
    CreateVcn,
    /// Whether the network is there.
    AwaitVcn { vcn_id: String, wait: WaitAvailable },
    /// The making of an internet gateway.
    CreateGateway { vcn_id: String, route_table: String },
    /// Whether the gateway is there.
    AwaitGateway { vcn_id: String, route_table: String, gateway_id: String, wait: WaitAvailable },
    /// The routes of the network.
    ReadRoutes { vcn_id: String, route_table: String, gateway_id: String },
    /// The change of the routes.
    WriteRoutes { vcn_id: String },
    /// The subnets of the network, which was made on the way or was there before.
    FindSubnet { vcn_id: String, made: bool },
    /// The making of a subnet.
    CreateSubnet,
    /// Whether the subnet is there.
    AwaitSubnet { wait: WaitAvailable },
}

/// Where a network is made, of which addresses, and how far that is.
pub struct NetworkSetup {
    pub host: String,
    pub compartment: String,
    pub vcn_cidr: String,
    pub subnet_cidr: String,
    pub stage: SetupStage,
}

/// How far the making of a network is.
pub enum SetupStageView {
    FindVcn,
    CreateVcn,
    AwaitVcn { vcn_id: Seq<char>, wait: WaitView },
    CreateGateway { vcn_id: Seq<char>, route_table: Seq<char> },
    AwaitGateway {
        vcn_id: Seq<char>,
        route_table: Seq<char>,
        gateway_id: Seq<char>,
        wait: WaitView,
    },
    ReadRoutes { vcn_id: Seq<char>, route_table: Seq<char>, gateway_id: Seq<char> },
    WriteRoutes { vcn_id: Seq<char> },
    FindSubnet { vcn_id: Seq<char>, made: bool },
    CreateSubnet,
    AwaitSubnet { wait: WaitView },
}

/// Where a network is made, of which addresses, and how far that is.
pub struct SetupView {
    pub host: Seq<char>,
    pub compartment: Seq<char>,
    pub vcn_cidr: Seq<char>,
    pub subnet_cidr: Seq<char>,
    pub stage: SetupStageView,
}

impl View for SetupStage {
    type V = SetupStageView;

    open spec fn view(&self) -> SetupStageView {
        match self {
            SetupStage::FindVcn => SetupStageView::FindVcn,
            SetupStage::CreateVcn => SetupStageView::CreateVcn,
            SetupStage::AwaitVcn { vcn_id, wait } => SetupStageView::AwaitVcn {
                vcn_id: vcn_id@,
                wait: wait@,
            },
            SetupStage::CreateGateway { vcn_id, route_table } => SetupStageView::CreateGateway {
                vcn_id: vcn_id@,
                route_table: route_table@,
            },
            SetupStage::AwaitGateway { vcn_id, route_table, gateway_id, wait } =>
            SetupStageView::AwaitGateway {
                vcn_id: vcn_id@,
                route_table: route_table@,
                gateway_id: gateway_id@,
                wait: wait@,
            },
            SetupStage::ReadRoutes { vcn_id, route_table, gateway_id } =>
            SetupStageView::ReadRoutes {
                vcn_id: vcn_id@,
                route_table: route_table@,
                gateway_id: gateway_id@,
            },
            SetupStage::WriteRoutes { vcn_id } => SetupStageView::WriteRoutes { vcn_id: vcn_id@ },
            SetupStage::FindSubnet { vcn_id, made } => SetupStageView::FindSubnet {
                vcn_id: vcn_id@,
                made: *made,
            },
            SetupStage::CreateSubnet => SetupStageView::CreateSubnet,
            SetupStage::AwaitSubnet { wait } => SetupStageView::AwaitSubnet { wait: wait@ },
        }
    }
}

impl View for NetworkSetup {
    type V = SetupView;

    open spec fn view(&self) -> SetupView {
        SetupView {
            host: self.host@,
            compartment: self.compartment@,
            vcn_cidr: self.vcn_cidr@,
            subnet_cidr: self.subnet_cidr@,
            stage: self.stage@,
        }
    }
}

/// The object that a network is made from.
pub open spec fn vcn_body(compartment: Seq<char>, cidr: Seq<char>) -> JsonTree {
    JsonTree::Object(
        no_fields().insert("compartmentId"@, JsonTree::Text(compartment)).insert(
            "cidrBlock"@,
            JsonTree::Text(cidr),
        ).insert("displayName"@, JsonTree::Text("free-arm-vcn"@)),
    )
}

/// The object that an internet gateway is made from.
pub open spec fn gateway_body(compartment: Seq<char>, vcn_id: Seq<char>) -> JsonTree {
    JsonTree::Object(
        no_fields().insert("compartmentId"@, JsonTree::Text(compartment)).insert(
            "displayName"@,
            JsonTree::Text("free-arm-igw"@),
        ).insert("isEnabled"@, JsonTree::Bool(true)).insert("vcnId"@, JsonTree::Text(vcn_id)),
    )
}

/// The route of everything to a gateway.
pub open spec fn internet_route(gateway_id: Seq<char>) -> JsonTree {
    JsonTree::Object(
        no_fields().insert("destination"@, JsonTree::Text("0.0.0.0/0"@)).insert(
            "destinationType"@,
            JsonTree::Text("CIDR_BLOCK"@),
        ).insert("networkEntityId"@, JsonTree::Text(gateway_id)),
    )
}

/// The object that the routes of a network become: those that `table` has, and
/// behind them the route of everything to a gateway.
pub open spec fn routes_body(table: JsonTree, gateway_id: Seq<char>) -> JsonTree {
    JsonTree::Object(
        no_fields().insert(
            "routeRules"@,
            JsonTree::List(
                items_in(table, "routeRules"@).push(internet_route(gateway_id)),
            ),
        ),
    )
}

/// The object that a subnet is made from.
pub open spec fn subnet_body(
    compartment: Seq<char>,
    cidr: Seq<char>,
    vcn_id: Seq<char>,
) -> JsonTree {
    JsonTree::Object(
        no_fields().insert("compartmentId"@, JsonTree::Text(compartment)).insert(
            "cidrBlock"@,
            JsonTree::Text(cidr),
        ).insert("displayName"@, JsonTree::Text("free-arm-subnet"@)).insert(
            "vcnId"@,
            JsonTree::Text(vcn_id),
        ).insert("prohibitPublicIpOnVnic"@, JsonTree::Bool(false)),
    )
}

/// The addresses of a subnet. Those that are asked for are for a network that is
/// made on the way; in a network that was there before, a subnet is made of the
/// default range, whatever is asked for.
pub open spec fn subnet_range(asked: Seq<char>, made: bool) -> Seq<char> {
    if made {
        asked
    } else {
        "10.0.0.0/24"@
    }
}

/// The addresses of a subnet: those that are asked for in a network that is made
/// on the way, and the default range in one that was there before.
pub fn range_of_subnet(asked: &str, made: bool) -> (range: String)
    ensures
        range@ == subnet_range(asked@, made),
{
    if made {
        asked.to_owned()
    } else {
        "10.0.0.0/24".to_owned()
    }
}

/// The question for a network of the name that is given to new ones.
pub open spec fn named_vcn_view(host: Seq<char>, compartment: Seq<char>) -> CallView {
    get_view(
        host,
        "/20160918/vcns"@,
        no_query().push(("compartmentId"@, compartment)).push(("displayName"@, "free-arm-vcn"@)),
    )
}

/// What comes next in the making of a network.
pub type SetupTurn = TurnView<SetupView, JsonTree>;

impl SetupView {
    /// The next request, after a rest, to be answered here.
    pub open spec fn here(self, after: u64, call: CallView) -> SetupTurn {
        TurnView::Go { state: self, after, call }
    }

    /// The next request, to be answered to `stage`.
    pub open spec fn go(self, stage: SetupStageView, call: CallView) -> SetupTurn {
        TurnView::Go { state: SetupView { stage, ..self }, after: 0, call }
    }

    /// The question for the subnets of a network.
    pub open spec fn ask_subnets(self, vcn_id: Seq<char>, made: bool) -> SetupTurn {
        self.go(
            SetupStageView::FindSubnet { vcn_id, made },
            subnets_view(self.host, self.compartment, vcn_id),
        )
    }

    /// The start of a wait, and the stage that it belongs to.
    pub open spec fn wait(self, path: Seq<char>, what: Seq<char>) -> WaitView {
        WaitView { host: self.host, path, what, polls: 0 }
    }

    /// What an answer to the question whether the network is there comes to.
    pub open spec fn next_await_vcn(
        self,
        vcn_id: Seq<char>,
        wait: WaitView,
        answer: AnswerView,
    ) -> SetupTurn {
        match wait.next(answer) {
            TurnView::Go { state, after, call } => TurnView::Go {
                state: SetupView {
                    stage: SetupStageView::AwaitVcn { vcn_id, wait: state },
                    ..self
                },
                after,
                call,
            },
            TurnView::Stop { after, error } => TurnView::Stop { after, error },
            TurnView::Done(vcn) => self.go(
                SetupStageView::CreateGateway {
                    vcn_id,
                    route_table: text_or_empty(vcn, "defaultRouteTableId"@),
                },
                send_view(
                    "POST"@,
                    self.host,
                    "/20160918/internetGateways"@,
                    gateway_body(self.compartment, vcn_id),
                ),
            ),
        }
    }

    /// What an answer to the question whether the gateway is there comes to.
    pub open spec fn next_await_gateway(
        self,
        vcn_id: Seq<char>,
        route_table: Seq<char>,
        gateway_id: Seq<char>,
        wait: WaitView,
        answer: AnswerView,
    ) -> SetupTurn {
        match wait.next(answer) {
            TurnView::Go { state, after, call } => TurnView::Go {
                state: SetupView {
                    stage: SetupStageView::AwaitGateway {
                        vcn_id,
                        route_table,
                        gateway_id,
                        wait: state,
                    },
                    ..self
                },
                after,
                call,
            },
            TurnView::Stop { after, error } => TurnView::Stop { after, error },
            TurnView::Done(_) => self.go(
                SetupStageView::ReadRoutes { vcn_id, route_table, gateway_id },
                get_view(self.host, "/20160918/routeTables/"@ + route_table, no_query()),
            ),
        }
    }

    /// What an answer to the question whether the subnet is there comes to.
    pub open spec fn next_await_subnet(self, wait: WaitView, answer: AnswerView) -> SetupTurn {
        match wait.next(answer) {
            TurnView::Go { state, after, call } => TurnView::Go {
                state: SetupView {
                    stage: SetupStageView::AwaitSubnet { wait: state },
                    ..self
                },
                after,
                call,
            },
            TurnView::Stop { after, error } => TurnView::Stop { after, error },
            TurnView::Done(subnet) => TurnView::Done(subnet),
        }
    }

    /// What an answer to a question that is asked once comes to.
    pub open spec fn next_once(self, tree: JsonTree) -> SetupTurn {
        match self.stage {
            SetupStageView::FindVcn => {
                let vcns = items_of(tree);
                let at = next_available(vcns, 0);
                if at < vcns.len() && text_or_empty(vcns[at], "id"@).len() > 0 {
                    self.ask_subnets(text_or_empty(vcns[at], "id"@), false)
                } else {
                    self.go(
                        SetupStageView::CreateVcn,
                        send_view(
                            "POST"@,
                            self.host,
                            "/20160918/vcns"@,
                            vcn_body(self.compartment, self.vcn_cidr),
                        ),
                    )
                }
            },
            SetupStageView::CreateVcn => {
                let vcn_id = text_or_empty(tree, "id"@);
                let wait = self.wait("/20160918/vcns/"@ + vcn_id, "VCN"@);
                self.go(SetupStageView::AwaitVcn { vcn_id, wait }, wait.call())
            },
            SetupStageView::CreateGateway { vcn_id, route_table } => {
                let gateway_id = text_or_empty(tree, "id"@);
                let wait = self.wait("/20160918/internetGateways/"@ + gateway_id, "IGW"@);
                self.go(
                    SetupStageView::AwaitGateway { vcn_id, route_table, gateway_id, wait },
                    wait.call(),
                )
            },
            SetupStageView::ReadRoutes { vcn_id, route_table, gateway_id } => self.go(
                SetupStageView::WriteRoutes { vcn_id },
                send_view(
                    "PUT"@,
                    self.host,
                    "/20160918/routeTables/"@ + route_table,
                    routes_body(tree, gateway_id),
                ),
            ),
            SetupStageView::WriteRoutes { vcn_id } => self.ask_subnets(vcn_id, true),
            SetupStageView::FindSubnet { vcn_id, made } => {
                let subnets = items_of(tree);
                let at = next_public(subnets, 0);
                if at < subnets.len() {
                    TurnView::Done(subnets[at])
                } else {
                    self.go(
                        SetupStageView::CreateSubnet,
                        send_view(
                            "POST"@,
                            self.host,
                            "/20160918/subnets"@,
                            subnet_body(
                                self.compartment,
                                subnet_range(self.subnet_cidr, made),
                                vcn_id,
                            ),
                        ),
                    )
                }
            },
            _ => {
                let subnet_id = text_or_empty(tree, "id"@);
                let wait = self.wait("/20160918/subnets/"@ + subnet_id, "subnet"@);
                self.go(SetupStageView::AwaitSubnet { wait }, wait.call())
            },
        }
    }

    /// What an answer comes to.
    pub open spec fn next(self, answer: AnswerView) -> SetupTurn {
        match self.stage {
            SetupStageView::AwaitVcn { vcn_id, wait } => self.next_await_vcn(vcn_id, wait, answer),
            SetupStageView::AwaitGateway { vcn_id, route_table, gateway_id, wait } =>
            self.next_await_gateway(vcn_id, route_table, gateway_id, wait, answer),
            SetupStageView::AwaitSubnet { wait } => self.next_await_subnet(wait, answer),
            _ => match answer {
                Err(error) => TurnView::Stop { after: 0, error },
                Ok(tree) => self.next_once(tree),
            },
        }
    }
}

/// Where a network is made, and of which addresses.
struct Site {
    host: String,
    compartment: String,
    vcn_cidr: String,
    subnet_cidr: String,
}

impl Site {
    spec fn at(&self, stage: SetupStageView) -> SetupView {
        SetupView {
            host: self.host@,
            compartment: self.compartment@,
            vcn_cidr: self.vcn_cidr@,
            subnet_cidr: self.subnet_cidr@,
            stage,
        }
    }

    fn go(self, stage: SetupStage, after: u64, call: ApiCall) -> (turn: Turn<NetworkSetup, Json>)
        ensures
            turn@ == self.at(stage@).here(after, call@),
    {
        Turn::Go {
            state: NetworkSetup {
                host: self.host,
                compartment: self.compartment,
                vcn_cidr: self.vcn_cidr,
                subnet_cidr: self.subnet_cidr,
                stage,
            },
            after,
            call,
        }
    }

    fn ask_subnets(self, vcn_id: String, made: bool) -> (turn: Turn<NetworkSetup, Json>)
        ensures
            forall|stage: SetupStageView|
                turn@ == #[trigger] self.at(stage).ask_subnets(vcn_id@, made),
    {
        let call: ApiCall = subnets_call(
            self.host.as_str(),
            self.compartment.as_str(),
            vcn_id.as_str(),
        );
        self.go(SetupStage::FindSubnet { vcn_id, made }, 0, call)
    }

    fn find_vcn(self, v: Json) -> (turn: Turn<NetworkSetup, Json>)
        ensures
            turn@ == self.at(SetupStageView::FindVcn).next_once(v@),
    {
        let vcns: Vec<Json> = into_items(v);
        let at: usize = find_available(&vcns, 0);
        if at < vcns.len() {
            let vcn_id: String = get_str_or_empty(&vcns[at], "id");
            if !vcn_id.as_str().is_empty() {
                return self.ask_subnets(vcn_id, false);
            }
        }
        let body: Json = Fields::new().with(
            "compartmentId",
            json_text(self.compartment.as_str()),
        ).with("cidrBlock", json_text(self.vcn_cidr.as_str())).with(
            "displayName",
            json_text("free-arm-vcn"),
        ).object();
        let call: ApiCall = send_call(
            "POST",
            self.host.as_str(),
            "/20160918/vcns".to_owned(),
            body,
        );
        self.go(SetupStage::CreateVcn, 0, call)
    }

    fn created_vcn(self, v: Json) -> (turn: Turn<NetworkSetup, Json>)
        ensures
            turn@ == self.at(SetupStageView::CreateVcn).next_once(v@),
    {
        let vcn_id: String = get_str_or_empty(&v, "id");
        let path: String = concat("/20160918/vcns/", vcn_id.as_str());
        let (wait, call) = WaitAvailable::start(self.host.as_str(), path, "VCN");
        self.go(SetupStage::AwaitVcn { vcn_id, wait }, 0, call)
    }

    fn await_vcn(self, vcn_id: String, wait: WaitAvailable, answer: Answer) -> (turn: Turn<
        NetworkSetup,
        Json,
    >)
        ensures
            forall|stage: SetupStageView|
                turn@ == #[trigger] self.at(stage).next_await_vcn(
                    vcn_id@,
                    wait@,
                    answer_view(answer),
                ),
    {
        match wait.wait_available(answer) {
            Turn::Go { state, after, call } => self.go(
                SetupStage::AwaitVcn { vcn_id, wait: state },
                after,
                call,
            ),
            Turn::Stop { after, error } => Turn::Stop { after, error },
            Turn::Done(vcn) => {
                let route_table: String = get_str_or_empty(&vcn, "defaultRouteTableId");
                let body: Json = Fields::new().with(
                    "compartmentId",
                    json_text(self.compartment.as_str()),
                ).with("displayName", json_text("free-arm-igw")).with(
                    "isEnabled",
                    Json::Bool(true),
                ).with("vcnId", json_text(vcn_id.as_str())).object();
                let call: ApiCall = send_call(
                    "POST",
                    self.host.as_str(),
                    "/20160918/internetGateways".to_owned(),
                    body,
                );
                self.go(SetupStage::CreateGateway { vcn_id, route_table }, 0, call)
            },
        }
    }

    fn created_gateway(self, vcn_id: String, route_table: String, v: Json) -> (turn: Turn<
        NetworkSetup,
        Json,
    >)
        ensures
            turn@ == self.at(
                (SetupStageView::CreateGateway { vcn_id: vcn_id@, route_table: route_table@ }),
            ).next_once(v@),
    {
        let gateway_id: String = get_str_or_empty(&v, "id");
        let path: String = concat("/20160918/internetGateways/", gateway_id.as_str());
        let (wait, call) = WaitAvailable::start(self.host.as_str(), path, "IGW");
        self.go(SetupStage::AwaitGateway { vcn_id, route_table, gateway_id, wait }, 0, call)
    }

    fn await_gateway(
        self,
        vcn_id: String,
        route_table: String,
        gateway_id: String,
        wait: WaitAvailable,
        answer: Answer,
    ) -> (turn: Turn<NetworkSetup, Json>)
        ensures
            forall|stage: SetupStageView|
                turn@ == #[trigger] self.at(stage).next_await_gateway(
                    vcn_id@,
                    route_table@,
                    gateway_id@,
                    wait@,
                    answer_view(answer),
                ),
    {
        match wait.wait_available(answer) {
            Turn::Go { state, after, call } => self.go(
                SetupStage::AwaitGateway { vcn_id, route_table, gateway_id, wait: state },
                after,
                call,
            ),
            Turn::Stop { after, error } => Turn::Stop { after, error },
            Turn::Done(_) => {
                let path: String = concat("/20160918/routeTables/", route_table.as_str());
                let call: ApiCall = get_call(self.host.as_str(), path, Query::new());
                self.go(SetupStage::ReadRoutes { vcn_id, route_table, gateway_id }, 0, call)
            },
        }
    }

    fn read_routes(self, vcn_id: String, route_table: String, gateway_id: String, v: Json) -> (turn:
        Turn<NetworkSetup, Json>)
        ensures
            turn@ == self.at(
                (SetupStageView::ReadRoutes {
                    vcn_id: vcn_id@,
                    route_table: route_table@,
                    gateway_id: gateway_id@,
                }),
            ).next_once(v@),
    {
        let ghost table = v@;
        let mut rules: Vec<Json> = take_items(v, "routeRules");
        let ghost before = rules@;
        let route: Json = Fields::new().with("destination", json_text("0.0.0.0/0")).with(
            "destinationType",
            json_text("CIDR_BLOCK"),
        ).with("networkEntityId", json_text(gateway_id.as_str())).object();
        rules.push(route);
        assert(trees(rules@) =~= trees(before).push(internet_route(gateway_id@)));
        let body: Json = Fields::new().with("routeRules", Json::List(rules)).object();
        let path: String = concat("/20160918/routeTables/", route_table.as_str());
        let call: ApiCall = send_call("PUT", self.host.as_str(), path, body);
        self.go(SetupStage::WriteRoutes { vcn_id }, 0, call)
    }

    fn find_subnet(self, vcn_id: String, made: bool, v: Json) -> (turn: Turn<NetworkSetup, Json>)
        ensures
            turn@ == self.at((SetupStageView::FindSubnet { vcn_id: vcn_id@, made })).next_once(v@),
    {
        let subnets: Vec<Json> = into_items(v);
        let at: usize = find_public(&subnets);
        if at < subnets.len() {
            return Turn::Done(take_item(subnets, at));
        }
        let range: String = range_of_subnet(self.subnet_cidr.as_str(), made);
        let body: Json = Fields::new().with(
            "compartmentId",
            json_text(self.compartment.as_str()),
        ).with("cidrBlock", json_text(range.as_str())).with(
            "displayName",
            json_text("free-arm-subnet"),
        ).with("vcnId", json_text(vcn_id.as_str())).with(
            "prohibitPublicIpOnVnic",
            Json::Bool(false),
        ).object();
        let call: ApiCall = send_call(
            "POST",
            self.host.as_str(),
            "/20160918/subnets".to_owned(),
            body,
        );
        self.go(SetupStage::CreateSubnet, 0, call)
    }

    fn created_subnet(self, v: Json) -> (turn: Turn<NetworkSetup, Json>)
        ensures
            turn@ == self.at(SetupStageView::CreateSubnet).next_once(v@),
    {
        let subnet_id: String = get_str_or_empty(&v, "id");
        let path: String = concat("/20160918/subnets/", subnet_id.as_str());
        let (wait, call) = WaitAvailable::start(self.host.as_str(), path, "subnet");
        self.go(SetupStage::AwaitSubnet { wait }, 0, call)
    }

    fn await_subnet(self, wait: WaitAvailable, answer: Answer) -> (turn: Turn<NetworkSetup, Json>)
        ensures
            forall|stage: SetupStageView|
                turn@ == #[trigger] self.at(stage).next_await_subnet(wait@, answer_view(answer)),
    {
        match wait.wait_available(answer) {
            Turn::Go { state, after, call } => self.go(
                SetupStage::AwaitSubnet { wait: state },
                after,
                call,
            ),
            Turn::Stop { after, error } => Turn::Stop { after, error },
            Turn::Done(subnet) => Turn::Done(subnet),
        }
    }
}

impl NetworkSetup {
    /// Starts making a network.
    pub fn start(host: &str, compartment: &str, vcn_cidr: &str, subnet_cidr: &str) -> (begun: (
        NetworkSetup,
        ApiCall,
    ))
        ensures
            begun.0@ == (SetupView {
                host: host@,
                compartment: compartment@,
                vcn_cidr: vcn_cidr@,
                subnet_cidr: subnet_cidr@,
                stage: SetupStageView::FindVcn,
            }),
            begun.1@ == named_vcn_view(host@, compartment@),
    {
        let call: ApiCall = get_call(
            host,
            "/20160918/vcns".to_owned(),
            Query::new().with("compartmentId", compartment).with("displayName", "free-arm-vcn"),
        );
        let setup: NetworkSetup = NetworkSetup {
            host: host.to_owned(),
            compartment: compartment.to_owned(),
            vcn_cidr: vcn_cidr.to_owned(),
            subnet_cidr: subnet_cidr.to_owned(),
            stage: SetupStage::FindVcn,
        };
        (setup, call)
    }

    /// Takes an answer.
    pub fn create_network(self, answer: Answer) -> (turn: Turn<NetworkSetup, Json>)
        ensures
            turn@ == self@.next(answer_view(answer)),
    {
        let site: Site = Site {
            host: self.host,
            compartment: self.compartment,
            vcn_cidr: self.vcn_cidr,
            subnet_cidr: self.subnet_cidr,
        };
        let ghost stage = self.stage@;
        assert(site.at(stage) == self@);
        match self.stage {
            SetupStage::AwaitVcn { vcn_id, wait } => {
                return site.await_vcn(vcn_id, wait, answer);
            },
            SetupStage::AwaitGateway { vcn_id, route_table, gateway_id, wait } => {
                return site.await_gateway(vcn_id, route_table, gateway_id, wait, answer);
            },
            SetupStage::AwaitSubnet { wait } => {
                return site.await_subnet(wait, answer);
            },
            stage => {
                let v: Json = match answer {
                    Ok(v) => v,
                    Err(error) => return Turn::Stop { after: 0, error },
                };
                match stage {
                    SetupStage::FindVcn => site.find_vcn(v),
                    SetupStage::CreateVcn => site.created_vcn(v),
                    SetupStage::CreateGateway { vcn_id, route_table } => site.created_gateway(
                        vcn_id,
                        route_table,
                        v,
                    ),
                    SetupStage::ReadRoutes { vcn_id, route_table, gateway_id } => site.read_routes(
                        vcn_id,
                        route_table,
                        gateway_id,
                        v,
                    ),
                    SetupStage::WriteRoutes { vcn_id } => site.ask_subnets(vcn_id, true),
                    SetupStage::FindSubnet { vcn_id, made } => site.find_subnet(vcn_id, made, v),
                    _ => site.created_subnet(v),
                }
            },
        }
    }
}

/// How far a stage is from the start.
pub open spec fn stage_rank(stage: SetupStageView) -> int {
    match stage {
        SetupStageView::FindVcn => 0,
        SetupStageView::CreateVcn => 1,
        SetupStageView::AwaitVcn { .. } => 2,
        SetupStageView::CreateGateway { .. } => 3,
        SetupStageView::AwaitGateway { .. } => 4,
        SetupStageView::ReadRoutes { .. } => 5,
        SetupStageView::WriteRoutes { .. } => 6,
        SetupStageView::FindSubnet { .. } => 7,
        SetupStageView::CreateSubnet => 8,
        SetupStageView::AwaitSubnet { .. } => 9,
    }
}

/// How often the resource of a stage was asked for.
pub open spec fn stage_polls(stage: SetupStageView) -> int {
    match stage {
        SetupStageView::AwaitVcn { wait, .. } => wait.polls,
        SetupStageView::AwaitGateway { wait, .. } => wait.polls,
        SetupStageView::AwaitSubnet { wait } => wait.polls,
        _ => 0,
    }
}

/// The making of a network only moves on: each further request belongs to a
/// later stage, or asks once more, up to the limit, for what is waited for. So
/// nothing is made twice, and there is an end.
pub proof fn law_setup_moves_on(setup: SetupView, answer: AnswerView)
    ensures
        setup.next(answer) is Go ==> ({
            let stage = setup.next(answer)->state.stage;
            ||| stage_rank(setup.stage) < stage_rank(stage) && stage_polls(stage) == 0
            ||| stage_rank(setup.stage) == stage_rank(stage) && stage_polls(stage) == stage_polls(
                setup.stage,
            ) + 1 && stage_polls(stage) < MAX_POLLS
        }),
{
}

/// Where a network of the name that is given to new ones is ready for use, it is
/// used: nothing is made before its subnets are asked for.
pub proof fn law_existing_network_is_reused(setup: SetupView, tree: JsonTree, n: int)
    requires
        setup.stage is FindVcn,
        0 <= n < items_of(tree).len(),
        is_available(items_of(tree)[n]),
        forall|i: int| 0 <= i < n ==> !is_available(#[trigger] items_of(tree)[i]),
        text_or_empty(items_of(tree)[n], "id"@).len() > 0,
    ensures
        setup.next(Ok(tree)) == setup.ask_subnets(
            text_or_empty(items_of(tree)[n], "id"@),
            false,
        ),
{
    lemma_next_available(items_of(tree), 0);
    let at = next_available(items_of(tree), 0);
    assert(at == n) by {
        if at < n {
            assert(!is_available(items_of(tree)[at]));
        }
    }
}

/// The routes that a network had are kept, in their order, and one is put
/// behind them.
pub proof fn law_routes_are_kept(table: JsonTree, gateway_id: Seq<char>)
    ensures
        items_in(routes_body(table, gateway_id), "routeRules"@) == items_in(
            table,
            "routeRules"@,
        ).push(internet_route(gateway_id)),
{
}

/// Whether an answer lists a network that is ready for use, and the first such has
/// an identifier.
pub open spec fn lists_network(answer: AnswerView) -> bool {
    &&& answer matches Ok(tree)
    &&& next_available(items_of(tree), 0) < items_of(tree).len()
    &&& text_or_empty(items_of(tree)[next_available(items_of(tree), 0)], "id"@).len() > 0
}

/// Whether two setups are in the same place, and at the same stage.
pub open spec fn alike(a: SetupView, b: SetupView) -> bool {
    a.host == b.host && a.compartment == b.compartment && a.stage == b.stage
}

/// Whether two turns come to the same: the same result, the same error, or the
/// same request to be answered at the same stage.
pub open spec fn same_turn(a: SetupTurn, b: SetupTurn) -> bool {
    match (a, b) {
        (TurnView::Done(v), TurnView::Done(w)) => v == w,
        (TurnView::Stop { after, error }, TurnView::Stop { after: rest, error: other }) => after
            == rest && error == other,
        (
            TurnView::Go { state, after, call },
            TurnView::Go { state: next, after: rest, call: other },
        ) => alike(state, next) && after == rest && call == other,
        _ => false,
    }
}

/// The address ranges that are asked for matter for new networks only: what
/// comes next is the same for any two, unless a network is about to be made, or
/// a subnet in a network that was made on the way.
pub proof fn law_ranges_are_for_new_networks(a: SetupView, b: SetupView, answer: AnswerView)
    requires
        alike(a, b),
        a.stage is FindVcn ==> lists_network(answer),
        !(a.stage is FindSubnet && a.stage->made),
    ensures
        same_turn(a.next(answer), b.next(answer)),
{
}

/// What some answers lead to, one after the other.
pub open spec fn setup_course(turn: SetupTurn, answers: Seq<AnswerView>) -> SetupTurn
    decreases answers.len(),
{
    if answers.len() == 0 {
        turn
    } else {
        match setup_course(turn, answers.drop_last()) {
            TurnView::Go { state, .. } => state.next(answers.last()),
            end => end,
        }
    }
}

/// Whether a stage can be reached without a network being made.
pub open spec fn is_reuse(stage: SetupStageView) -> bool {
    ||| stage is FindSubnet && !stage->made
    ||| stage is CreateSubnet
    ||| stage is AwaitSubnet
}

/// Where a network of the name that is given to new ones is there, the address
/// ranges that are asked for change nothing, up to the end: every request and the
/// result are the same for any two.
pub proof fn law_reused_network_ignores_ranges(
    a: SetupView,
    b: SetupView,
    first: AnswerView,
    answers: Seq<AnswerView>,
)
    requires
        alike(a, b),
        a.stage is FindVcn,
        lists_network(first),
    ensures
        same_turn(setup_course(a.next(first), answers), setup_course(b.next(first), answers)),
        setup_course(a.next(first), answers) matches TurnView::Go { state, .. } ==> is_reuse(
            state.stage,
        ),
    decreases answers.len(),
{
    if answers.len() == 0 {
        law_ranges_are_for_new_networks(a, b, first);
    } else {
        let before = answers.drop_last();
        law_reused_network_ignores_ranges(a, b, first, before);
        match (setup_course(a.next(first), before), setup_course(b.next(first), before)) {
            (TurnView::Go { state, .. }, TurnView::Go { state: next, .. }) => {
                law_ranges_are_for_new_networks(state, next, answers.last());
            },
            _ => {},
        }
    }
}

/// The making of a network ends well only with a subnet that is ready for use:
/// one of those that the service lists, which is public, or the one that was
/// made and waited for. And it ends with every error that the service answers.
pub proof fn law_setup_ends(setup: SetupView, answer: AnswerView)
    ensures
        setup.next(answer) matches TurnView::Done(subnet) ==> {
            &&& answer is Ok
            &&& is_available(subnet)
            &&& {
                ||| setup.stage is FindSubnet && is_public_subnet(subnet) && items_of(
                    answer->Ok_0,
                ).contains(subnet)
                ||| setup.stage is AwaitSubnet && subnet == answer->Ok_0
            }
        },
        answer matches Err(error) ==> setup.next(answer) == (SetupTurn::Stop { after: 0, error }),
{
    if answer is Ok && setup.stage is FindSubnet {
        let subnets = items_of(answer->Ok_0);
        lemma_next_public(subnets, 0);
        let at = next_public(subnets, 0);
        if at < subnets.len() {
            assert(subnets.contains(subnets[at]));
        }
    }
}

proof fn lemma_body_keys()
    ensures
        "compartmentId"@.len() == 13,
        "cidrBlock"@.len() == 9,
        "displayName"@.len() == 11,
        "isEnabled"@.len() == 9,
        "vcnId"@.len() == 5,
        "prohibitPublicIpOnVnic"@.len() == 22,
        "destination"@.len() == 11,
        "destinationType"@ != "networkEntityId"@,
        "destinationType"@.len() == 15,
        "networkEntityId"@.len() == 15,
{
    reveal_strlit("compartmentId");
    reveal_strlit("cidrBlock");
    reveal_strlit("displayName");
    reveal_strlit("isEnabled");
    reveal_strlit("vcnId");
    reveal_strlit("prohibitPublicIpOnVnic");
    reveal_strlit("destination");
    reveal_strlit("destinationType");
    reveal_strlit("networkEntityId");
    assert("destinationType"@[0] != "networkEntityId"@[0]);
}

/// What is made carries what it is made for, each value in its own field, and
/// nothing else: a network its addresses, a gateway and a subnet the network that
/// they belong to, a subnet its addresses and that it is public.
pub proof fn law_what_is_made_carries_its_values(
    compartment: Seq<char>,
    cidr: Seq<char>,
    vcn_id: Seq<char>,
)
    ensures
        ({
            let body = vcn_body(compartment, cidr);
            &&& text_field(body, "compartmentId"@) == Some(compartment)
            &&& text_field(body, "cidrBlock"@) == Some(cidr)
            &&& text_field(body, "displayName"@) == Some("free-arm-vcn"@)
            &&& has_only(body, set!["compartmentId"@, "cidrBlock"@, "displayName"@])
        }),
        ({
            let body = gateway_body(compartment, vcn_id);
            &&& text_field(body, "compartmentId"@) == Some(compartment)
            &&& text_field(body, "displayName"@) == Some("free-arm-igw"@)
            &&& bool_field(body, "isEnabled"@) == Some(true)
            &&& text_field(body, "vcnId"@) == Some(vcn_id)
            &&& has_only(body, set!["compartmentId"@, "displayName"@, "isEnabled"@, "vcnId"@])
        }),
        ({
            let body = subnet_body(compartment, cidr, vcn_id);
            &&& text_field(body, "compartmentId"@) == Some(compartment)
            &&& text_field(body, "cidrBlock"@) == Some(cidr)
            &&& text_field(body, "displayName"@) == Some("free-arm-subnet"@)
            &&& text_field(body, "vcnId"@) == Some(vcn_id)
            &&& bool_field(body, "prohibitPublicIpOnVnic"@) == Some(false)
            &&& has_only(
                body,
                set![
                    "compartmentId"@,
                    "cidrBlock"@,
                    "displayName"@,
                    "vcnId"@,
                    "prohibitPublicIpOnVnic"@,
                ],
            )
        }),
{
    lemma_body_keys();
}

/// The route that is added leads everything to the gateway, and the change of
/// the routes changes nothing else.
pub proof fn law_route_leads_everything_to_the_gateway(table: JsonTree, gateway_id: Seq<char>)
    ensures
        text_field(internet_route(gateway_id), "destination"@) == Some("0.0.0.0/0"@),
        text_field(internet_route(gateway_id), "destinationType"@) == Some("CIDR_BLOCK"@),
        text_field(internet_route(gateway_id), "networkEntityId"@) == Some(gateway_id),
        has_only(
            internet_route(gateway_id),
            set!["destination"@, "destinationType"@, "networkEntityId"@],
        ),
        has_only(routes_body(table, gateway_id), set!["routeRules"@]),
{
    lemma_body_keys();
}

/// Whether a turn is a request, made at once, that is answered to `stage`; all
/// else stays as it is.
pub open spec fn moves_to(turn: SetupTurn, setup: SetupView, stage: SetupStageView) -> bool {
    &&& turn is Go
    &&& turn->Go_after == 0
    &&& turn->state == (SetupView { stage, ..setup })
}

/// The first network of the name that is available, and has an identifier, is
/// used, and its subnets are asked for; else a network is made, of the addresses
/// that are wanted.
pub proof fn law_network_is_used_or_made(setup: SetupView, tree: JsonTree)
    requires
        setup.stage is FindVcn,
    ensures
        asks(
            named_vcn_view(setup.host, setup.compartment),
            setup.host,
            "/20160918/vcns"@,
            seq![("compartmentId"@, setup.compartment), ("displayName"@, "free-arm-vcn"@)],
        ),
        ({
            let turn = setup.next(Ok(tree));
            let vcns = items_of(tree);
            ||| exists|n: int|
                {
                    let vcn_id = text_or_empty(vcns[n], "id"@);
                    &&& 0 <= n < vcns.len()
                    &&& text_field(#[trigger] vcns[n], "lifecycleState"@) == Some("AVAILABLE"@)
                    &&& forall|i: int|
                        0 <= i < n ==> text_field(#[trigger] vcns[i], "lifecycleState"@) != Some(
                            "AVAILABLE"@,
                        )
                    &&& vcn_id.len() > 0
                    &&& moves_to(turn, setup, SetupStageView::FindSubnet { vcn_id, made: false })
                    &&& asks(
                        turn->call,
                        setup.host,
                        "/20160918/subnets"@,
                        seq![("compartmentId"@, setup.compartment), ("vcnId"@, vcn_id)],
                    )
                }
            ||| {
                &&& moves_to(turn, setup, SetupStageView::CreateVcn)
                &&& hands(turn->call, "POST"@, setup.host, "/20160918/vcns"@)
                &&& turn->call.headers.len() == 0
                &&& turn->call.body == Some(vcn_body(setup.compartment, setup.vcn_cidr))
                &&& !lists_network(Ok(tree))
            }
        }),
{
    let vcns = items_of(tree);
    lemma_next_available(vcns, 0);
    let at = next_available(vcns, 0);
    assert forall|i: int| 0 <= i < at implies text_field(
        #[trigger] vcns[i],
        "lifecycleState"@,
    ) != Some("AVAILABLE"@) by {
        assert(!is_available(vcns[i]));
    }
    if at < vcns.len() {
        assert(is_available(vcns[at]));
    }
}

/// A network, a gateway and a subnet that was made is waited for by the
/// identifier that the service gave it.
pub proof fn law_what_is_made_is_waited_for(setup: SetupView, tree: JsonTree)
    ensures
        ({
            let turn = setup.next(Ok(tree));
            let id = text_or_empty(tree, "id"@);
            match setup.stage {
                SetupStageView::CreateVcn => {
                    let path = "/20160918/vcns/"@ + id;
                    let wait = WaitView { host: setup.host, path, what: "VCN"@, polls: 0 };
                    &&& moves_to(turn, setup, SetupStageView::AwaitVcn { vcn_id: id, wait })
                    &&& asks(turn->call, setup.host, path, seq![])
                },
                SetupStageView::CreateGateway { vcn_id, route_table } => {
                    let path = "/20160918/internetGateways/"@ + id;
                    let wait = WaitView { host: setup.host, path, what: "IGW"@, polls: 0 };
                    &&& moves_to(
                        turn,
                        setup,
                        SetupStageView::AwaitGateway { vcn_id, route_table, gateway_id: id, wait },
                    )
                    &&& asks(turn->call, setup.host, path, seq![])
                },
                SetupStageView::CreateSubnet => {
                    let path = "/20160918/subnets/"@ + id;
                    let wait = WaitView { host: setup.host, path, what: "subnet"@, polls: 0 };
                    &&& moves_to(turn, setup, SetupStageView::AwaitSubnet { wait })
                    &&& asks(turn->call, setup.host, path, seq![])
                },
                _ => true,
            }
        }),
{
}

/// Once a network is there, a gateway is made in it; once the gateway is there,
/// the routes of the network are read, by the table that the network told, and
/// written back to it with the route to the gateway; then the subnets of the
/// network are asked for.
pub proof fn law_network_gets_its_way_out(setup: SetupView, tree: JsonTree)
    ensures
        ({
            let turn = setup.next(Ok(tree));
            match setup.stage {
                SetupStageView::AwaitVcn { vcn_id, .. } => text_field(tree, "lifecycleState"@)
                    == Some("AVAILABLE"@) ==> {
                    let route_table = text_or_empty(tree, "defaultRouteTableId"@);
                    &&& moves_to(turn, setup, SetupStageView::CreateGateway { vcn_id, route_table })
                    &&& hands(turn->call, "POST"@, setup.host, "/20160918/internetGateways"@)
                    &&& turn->call.headers.len() == 0
                    &&& turn->call.body == Some(gateway_body(setup.compartment, vcn_id))
                },
                SetupStageView::AwaitGateway { vcn_id, route_table, gateway_id, .. } => text_field(
                    tree,
                    "lifecycleState"@,
                ) == Some("AVAILABLE"@) ==> {
                    &&& moves_to(
                        turn,
                        setup,
                        SetupStageView::ReadRoutes { vcn_id, route_table, gateway_id },
                    )
                    &&& asks(
                        turn->call,
                        setup.host,
                        "/20160918/routeTables/"@ + route_table,
                        seq![],
                    )
                },
                SetupStageView::ReadRoutes { vcn_id, route_table, gateway_id } => {
                    &&& moves_to(turn, setup, SetupStageView::WriteRoutes { vcn_id })
                    &&& hands(
                        turn->call,
                        "PUT"@,
                        setup.host,
                        "/20160918/routeTables/"@ + route_table,
                    )
                    &&& turn->call.headers.len() == 0
                    &&& turn->call.body == Some(routes_body(tree, gateway_id))
                },
                SetupStageView::WriteRoutes { vcn_id } => {
                    &&& moves_to(turn, setup, SetupStageView::FindSubnet { vcn_id, made: true })
                    &&& asks(
                        turn->call,
                        setup.host,
                        "/20160918/subnets"@,
                        seq![("compartmentId"@, setup.compartment), ("vcnId"@, vcn_id)],
                    )
                },
                _ => true,
            }
        }),
{
}

/// The first public subnet of the network is used; where there is none, one is
/// made in it, of the addresses that are wanted in a network that was made on
/// the way, and of the default range in any other.
pub proof fn law_subnet_is_used_or_made(setup: SetupView, tree: JsonTree)
    requires
        setup.stage is FindSubnet,
    ensures
        ({
            let turn = setup.next(Ok(tree));
            let subnets = items_of(tree);
            ||| exists|n: int|
                {
                    &&& 0 <= n < subnets.len()
                    &&& is_public_subnet(#[trigger] subnets[n])
                    &&& forall|i: int| 0 <= i < n ==> !is_public_subnet(#[trigger] subnets[i])
                    &&& turn == SetupTurn::Done(subnets[n])
                }
            ||| {
                let range = if setup.stage->made {
                    setup.subnet_cidr
                } else {
                    "10.0.0.0/24"@
                };
                &&& forall|i: int|
                    0 <= i < subnets.len() ==> !is_public_subnet(#[trigger] subnets[i])
                &&& moves_to(turn, setup, SetupStageView::CreateSubnet)
                &&& hands(turn->call, "POST"@, setup.host, "/20160918/subnets"@)
                &&& turn->call.headers.len() == 0
                &&& turn->call.body == Some(
                    subnet_body(setup.compartment, range, setup.stage->FindSubnet_vcn_id),
                )
            }
        }),
{
    let subnets = items_of(tree);
    lemma_next_public(subnets, 0);
    if next_public(subnets, 0) < subnets.len() {
        assert(is_public_subnet(subnets[next_public(subnets, 0)]));
    }
}

/// While a resource is waited for, the making of a network goes as the wait goes:
/// it asks again when the wait does, and fails when and how the wait fails; the
/// wait for the subnet ends it.
pub proof fn law_setup_follows_its_waits(setup: SetupView, answer: AnswerView, wait: WaitView)
    requires
        match setup.stage {
            SetupStageView::AwaitVcn { wait: w, .. } => w == wait,
            SetupStageView::AwaitGateway { wait: w, .. } => w == wait,
            SetupStageView::AwaitSubnet { wait: w } => w == wait,
            _ => false,
        },
    ensures
        ({
            let turn = setup.next(answer);
            match wait.next(answer) {
                TurnView::Stop { after, error } => turn == (SetupTurn::Stop { after, error }),
                TurnView::Go { state, after, call } => {
                    &&& turn is Go
                    &&& turn->Go_after == after
                    &&& turn->call == call
                    &&& turn->state == (SetupView {
                        stage: match setup.stage {
                            SetupStageView::AwaitVcn { vcn_id, .. } => SetupStageView::AwaitVcn {
                                vcn_id,
                                wait: state,
                            },
                            SetupStageView::AwaitGateway { vcn_id, route_table, gateway_id, .. } =>
                            SetupStageView::AwaitGateway {
                                vcn_id,
                                route_table,
                                gateway_id,
                                wait: state,
                            },
                            _ => SetupStageView::AwaitSubnet { wait: state },
                        },
                        ..setup
                    })
                },
                TurnView::Done(v) => setup.stage is AwaitSubnet ==> turn == SetupTurn::Done(v),
            }
        }),
{
}

} // verus!
