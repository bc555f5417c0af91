//! What an instance needs and is: availability domains, images, instances and
//! their addresses.

use vstd::prelude::*;

use crate::error::{ApiError, ErrorView};
use crate::flow::{
    asks, concat, get_call, get_view, hands, has_only, no_query, reads, send_call, Answer,
    AnswerView, Query, Turn, TurnView,
};
use crate::json::{
    field, get_str, get_str_or_empty, into_items, items_of, json_integer, json_number, json_text,
    no_fields, number_tree, text_field, text_or_empty, trees, Fields, Json, JsonTree,
};
use crate::network::{state_is, take_item};
use crate::request::{answer_view, ApiCall, CallView};
use crate::settings::{law_decimal_tells_numbers_apart, opt_view};
use crate::text::{hex, hex_text, law_hexadecimal_is_reversible, signed_decimal, views};

verus! {

/// The shape of the instances that are launched.
pub open spec fn shape() -> Seq<char> {
    "VM.Standard.A1.Flex"@
}

// Availability domains.

/// The question for the availability domains of a compartment.
pub open spec fn domains_view(host: Seq<char>, compartment: Seq<char>) -> CallView {
    get_view(
        host,
        "/20160918/availabilityDomains"@,
        no_query().push(("compartmentId"@, compartment)),
    )
}

/// The question for the availability domains of a compartment.
pub fn domains_call(host: &str, compartment: &str) -> (call: ApiCall)
    ensures
        call@ == domains_view(host@, compartment@),
{
    get_call(
        host,
        "/20160918/availabilityDomains".to_owned(),
        Query::new().with("compartmentId", compartment),
    )
}

/// The names of those items that have one.
pub open spec fn names_of(items: Seq<JsonTree>) -> Seq<Seq<char>>
    decreases items.len(),
{
    if items.len() == 0 {
        Seq::empty()
    } else {
        match text_field(items.last(), "name"@) {
            Some(name) => names_of(items.drop_last()).push(name),
            None => names_of(items.drop_last()),
        }
    }
}

/// The view of a list of names that may be missing.
pub open spec fn names_view(names: Result<Vec<String>, ApiError>) -> Result<
    Seq<Seq<char>>,
    ErrorView,
> {
    match names {
        Ok(names) => Ok(views(names@)),
        Err(e) => Err(e@),
    }
}

/// What the answer to the question for the availability domains comes to: their
/// names, of which there has to be one.
pub open spec fn domains_of(answer: AnswerView) -> Result<Seq<Seq<char>>, ErrorView> {
    match answer {
        Err(error) => Err(error),
        Ok(tree) => if names_of(items_of(tree)).len() > 0 {
            Ok(names_of(items_of(tree)))
        } else {
            Err(ErrorView::Other("No availability domains found in compartment."@))
        },
    }
}

/// Takes the answer to the question for the availability domains.
pub fn list_availability_domains(answer: Answer) -> (names: Result<Vec<String>, ApiError>)
    ensures
        names_view(names) == domains_of(answer_view(answer)),
        names matches Ok(n) ==> n@.len() > 0,
{
    let v: Json = match answer {
        Ok(v) => v,
        Err(error) => return Err(error),
    };
    let ghost all = items_of(v@);
    let items: Vec<Json> = into_items(v);
    let mut names: Vec<String> = Vec::new();
    let mut i: usize = 0;
    assert(views(names@) =~= names_of(all.take(0)));
    while i < items.len()
        invariant
            i <= items@.len(),
            trees(items@) == all,
            views(names@) == names_of(all.take(i as int)),
        decreases items@.len() - i,
    {
        assert(all.take(i + 1).drop_last() =~= all.take(i as int));
        let ghost before = names@;
        match get_str(&items[i], "name") {
            Some(name) => {
                names.push(name);
                assert(views(names@) =~= views(before).push(name@));
            },
            None => {},
        }
        i = i + 1;
    }
    assert(all.take(all.len() as int) =~= all);
    if names.len() == 0 {
        return Err(ApiError::Other("No availability domains found in compartment.".to_owned()));
    }
    Ok(names)
}

// Images.

/// A search for the latest image of an operating system.
pub struct ImageSearch {
    pub host: String,
    pub compartment: String,
    pub os_name: String,
    pub os_version: String,
    /// Whether the version no longer matters.
    pub any_version: bool,
}

/// What image is searched for.
pub struct ImageSearchView {
    pub host: Seq<char>,
    pub compartment: Seq<char>,
    pub os_name: Seq<char>,
    pub os_version: Seq<char>,
    pub any_version: bool,
}

impl View for ImageSearch {
    type V = ImageSearchView;

    open spec fn view(&self) -> ImageSearchView {
        ImageSearchView {
            host: self.host@,
            compartment: self.compartment@,
            os_name: self.os_name@,
            os_version: self.os_version@,
            any_version: self.any_version,
        }
    }
}

/// The question for images, the latest first.
pub open spec fn images_view(
    host: Seq<char>,
    compartment: Seq<char>,
    os_name: Seq<char>,
    os_version: Option<Seq<char>>,
) -> CallView {
    let system = no_query().push(("compartmentId"@, compartment)).push(
        ("operatingSystem"@, os_name),
    );
    let version = match os_version {
        Some(v) => system.push(("operatingSystemVersion"@, v)),
        None => system,
    };
    get_view(
        host,
        "/20160918/images"@,
        version.push(("shape"@, shape())).push(("sortBy"@, "TIMECREATED"@)).push(
            ("sortOrder"@, "DESC"@),
        ),
    )
}

/// The complaint that there is no image.
pub open spec fn no_image(os_name: Seq<char>) -> ErrorView {
    ErrorView::Other(
        "No "@ + os_name + " images found for shape "@ + shape()
            + ". Try setting OS_NAME / OS_VERSION."@,
    )
}

impl ImageSearchView {
    /// The question that the next answer is to.
    pub open spec fn call(self) -> CallView {
        images_view(
            self.host,
            self.compartment,
            self.os_name,
            if self.any_version {
                None
            } else {
                Some(self.os_version)
            },
        )
    }

    /// What an answer comes to: the first image, or the question for any
    /// version, or the complaint that there is none.
    pub open spec fn next(self, answer: AnswerView) -> TurnView<ImageSearchView, JsonTree> {
        match answer {
            Err(error) => TurnView::Stop { after: 0, error },
            Ok(tree) => if items_of(tree).len() > 0 {
                TurnView::Done(items_of(tree)[0])
            } else if self.any_version {
                TurnView::Stop { after: 0, error: no_image(self.os_name) }
            } else {
                let wider = ImageSearchView { any_version: true, ..self };
                TurnView::Go { state: wider, after: 0, call: wider.call() }
            },
        }
    }
}

impl ImageSearch {
    fn call(&self) -> (call: ApiCall)
        ensures
            call@ == self@.call(),
    {
        let system: Query = Query::new().with("compartmentId", self.compartment.as_str()).with(
            "operatingSystem",
            self.os_name.as_str(),
        );
        let version: Query = if self.any_version {
            system
        } else {
            system.with("operatingSystemVersion", self.os_version.as_str())
        };
        get_call(
            self.host.as_str(),
            "/20160918/images".to_owned(),
            version.with("shape", "VM.Standard.A1.Flex").with("sortBy", "TIMECREATED").with(
                "sortOrder",
                "DESC",
            ),
        )
    }

    /// Starts a search.
    pub fn start(host: &str, compartment: &str, os_name: &str, os_version: &str) -> (begun: (
        ImageSearch,
        ApiCall,
    ))
        ensures
            begun.0@ == (ImageSearchView {
                host: host@,
                compartment: compartment@,
                os_name: os_name@,
                os_version: os_version@,
                any_version: false,
            }),
            begun.1@ == begun.0@.call(),
    {
        let search: ImageSearch = ImageSearch {
            host: host.to_owned(),
            compartment: compartment.to_owned(),
            os_name: os_name.to_owned(),
            os_version: os_version.to_owned(),
            any_version: false,
        };
        let call: ApiCall = search.call();
        (search, call)
    }

    /// Takes an answer.
    pub fn get_latest_image(self, answer: Answer) -> (turn: Turn<ImageSearch, Json>)
        ensures
            turn@ == self@.next(answer_view(answer)),
    {
        let v: Json = match answer {
            Ok(v) => v,
            Err(error) => return Turn::Stop { after: 0, error },
        };
        let items: Vec<Json> = into_items(v);
        if items.len() > 0 {
            return Turn::Done(take_item(items, 0));
        }
        if self.any_version {
            let mut complaint: String = concat("No ", self.os_name.as_str());
            complaint.append(" images found for shape ");
            complaint.append("VM.Standard.A1.Flex");
            complaint.append(". Try setting OS_NAME / OS_VERSION.");
            return Turn::Stop { after: 0, error: ApiError::Other(complaint) };
        }
        let wider: ImageSearch = ImageSearch {
            host: self.host,
            compartment: self.compartment,
            os_name: self.os_name,
            os_version: self.os_version,
            any_version: true,
        };
        let call: ApiCall = wider.call();
        Turn::Go { state: wider, after: 0, call }
    }
}

// Instances.

/// The question for instances of a name.
pub open spec fn instances_view(
    host: Seq<char>,
    compartment: Seq<char>,
    display_name: Seq<char>,
) -> CallView {
    get_view(
        host,
        "/20160918/instances"@,
        no_query().push(("compartmentId"@, compartment)).push(("displayName"@, display_name)),
    )
}

/// The question for instances of a name.
pub fn instances_call(host: &str, compartment: &str, display_name: &str) -> (call: ApiCall)
    ensures
        call@ == instances_view(host@, compartment@, display_name@),
{
    get_call(
        host,
        "/20160918/instances".to_owned(),
        Query::new().with("compartmentId", compartment).with("displayName", display_name),
    )
}

/// Whether an instance is running or about to.
pub open spec fn is_live(tree: JsonTree) -> bool {
    state_is(tree, "PROVISIONING"@) || state_is(tree, "RUNNING"@) || state_is(tree, "STARTING"@)
}

/// The first position at or behind `from` whose item is a live instance, or the
/// number of items.
pub open spec fn next_live(items: Seq<JsonTree>, from: int) -> int
    decreases items.len() - from,
{
    if from < 0 || from >= items.len() {
        items.len() as int
    } else if is_live(items[from]) {
        from
    } else {
        next_live(items, from + 1)
    }
}

fn find_live(items: &Vec<Json>) -> (at: usize)
    ensures
        at <= items@.len(),
        at == next_live(trees(items@), 0),
{
    let mut at: usize = 0;
    while at < items.len()
        invariant
            at <= items@.len(),
            next_live(trees(items@), 0) == next_live(trees(items@), at as int),
        decreases items@.len() - at,
    {
        let state: Option<String> = get_str(&items[at], "lifecycleState");
        if reads(&state, "PROVISIONING") || reads(&state, "RUNNING") || reads(&state, "STARTING") {
            return at;
        }
        at = at + 1;
    }
    at
}

/// The first live instance among those in an answer.
pub open spec fn live_instance(answer: AnswerView) -> Result<Option<JsonTree>, ErrorView> {
    match answer {
        Err(error) => Err(error),
        Ok(tree) => {
            let items = items_of(tree);
            let at = next_live(items, 0);
            Ok(
                if at < items.len() {
                    Some(items[at])
                } else {
                    None
                },
            )
        },
    }
}

/// The view of an instance that may be missing.
pub open spec fn instance_view(instance: Result<Option<Json>, ApiError>) -> Result<
    Option<JsonTree>,
    ErrorView,
> {
    match instance {
        Ok(Some(j)) => Ok(Some(j@)),
        Ok(None) => Ok(None),
        Err(e) => Err(e@),
    }
}

/// Takes the answer to the question for instances of a name.
pub fn check_existing_instance(answer: Answer) -> (instance: Result<Option<Json>, ApiError>)
    ensures
        instance_view(instance) == live_instance(answer_view(answer)),
{
    let v: Json = match answer {
        Ok(v) => v,
        Err(error) => return Err(error),
    };
    let items: Vec<Json> = into_items(v);
    let at: usize = find_live(&items);
    if at < items.len() {
        Ok(Some(take_item(items, at)))
    } else {
        Ok(None)
    }
}

/// What is launched.
pub struct LaunchPlan {
    pub compartment: String,
    pub image_id: String,
    pub subnet_id: String,
    pub ssh_pub_key: String,
    pub display_name: String,
    pub ocpus: Option<serde_json::Number>,
    pub memory_gb: Option<serde_json::Number>,
    pub boot_volume_gb: i64,
    pub assign_public_ip: bool,
}

/// What is launched.
pub struct PlanView {
    pub compartment: Seq<char>,
    pub image_id: Seq<char>,
    pub subnet_id: Seq<char>,
    pub ssh_pub_key: Seq<char>,
    pub display_name: Seq<char>,
    pub ocpus: JsonTree,
    pub memory_gb: JsonTree,
    pub boot_volume_gb: int,
    pub assign_public_ip: bool,
}

impl View for LaunchPlan {
    type V = PlanView;

    open spec fn view(&self) -> PlanView {
        PlanView {
            compartment: self.compartment@,
            image_id: self.image_id@,
            subnet_id: self.subnet_id@,
            ssh_pub_key: self.ssh_pub_key@,
            display_name: self.display_name@,
            ocpus: number_tree(self.ocpus),
            memory_gb: number_tree(self.memory_gb),
            boot_volume_gb: self.boot_volume_gb as int,
            assign_public_ip: self.assign_public_ip,
        }
    }
}

/// The object that an instance is made from.
pub open spec fn launch_body(plan: PlanView, domain: Seq<char>) -> JsonTree {
    let shape_config = JsonTree::Object(
        no_fields().insert("ocpus"@, plan.ocpus).insert(
            "memoryInGBs"@,
            plan.memory_gb,
        ),
    );
    let source = JsonTree::Object(
        no_fields().insert("sourceType"@, JsonTree::Text("image"@)).insert(
            "imageId"@,
            JsonTree::Text(plan.image_id),
        ).insert(
            "bootVolumeSizeInGBs"@,
            JsonTree::Number(signed_decimal(plan.boot_volume_gb)),
        ),
    );
    let vnic = JsonTree::Object(
        no_fields().insert("subnetId"@, JsonTree::Text(plan.subnet_id)).insert(
            "assignPublicIp"@,
            JsonTree::Bool(plan.assign_public_ip),
        ),
    );
    let metadata = JsonTree::Object(
        no_fields().insert("ssh_authorized_keys"@, JsonTree::Text(plan.ssh_pub_key)),
    );
    JsonTree::Object(
        no_fields().insert("displayName"@, JsonTree::Text(plan.display_name)).insert(
            "compartmentId"@,
            JsonTree::Text(plan.compartment),
        ).insert("availabilityDomain"@, JsonTree::Text(domain)).insert(
            "shape"@,
            JsonTree::Text(shape()),
        ).insert("shapeConfig"@, shape_config).insert("sourceDetails"@, source).insert(
            "createVnicDetails"@,
            vnic,
        ).insert("metadata"@, metadata),
    )
}

/// The request for an instance in an availability domain. The service takes two
/// requests with the same retry token for one.
pub open spec fn launch_view(
    host: Seq<char>,
    plan: PlanView,
    domain: Seq<char>,
    clock: nat,
) -> CallView {
    CallView {
        method: "POST"@,
        host,
        path: "/20160918/instances"@,
        query: no_query(),
        body: Some(launch_body(plan, domain)),
        headers: no_query().push(("opc-retry-token"@, hex(clock))),
    }
}

/// The request for an instance in an availability domain. `clock` is the time in
/// nanoseconds since 1970, from which the retry token is made.
pub fn launch_instance(host: &str, plan: &LaunchPlan, domain: &str, clock: u128) -> (call: ApiCall)
    ensures
        call@ == launch_view(host@, plan@, domain@, clock as nat),
{
    let shape_config: Json = Fields::new().with("ocpus", json_number(&plan.ocpus)).with(
        "memoryInGBs",
        json_number(&plan.memory_gb),
    ).object();
    let source: Json = Fields::new().with("sourceType", json_text("image")).with(
        "imageId",
        json_text(plan.image_id.as_str()),
    ).with("bootVolumeSizeInGBs", json_integer(plan.boot_volume_gb)).object();
    let vnic: Json = Fields::new().with("subnetId", json_text(plan.subnet_id.as_str())).with(
        "assignPublicIp",
        Json::Bool(plan.assign_public_ip),
    ).object();
    let metadata: Json = Fields::new().with(
        "ssh_authorized_keys",
        json_text(plan.ssh_pub_key.as_str()),
    ).object();
    let body: Json = Fields::new().with("displayName", json_text(plan.display_name.as_str())).with(
        "compartmentId",
        json_text(plan.compartment.as_str()),
    ).with("availabilityDomain", json_text(domain)).with(
        "shape",
        json_text("VM.Standard.A1.Flex"),
    ).with("shapeConfig", shape_config).with("sourceDetails", source).with(
        "createVnicDetails",
        vnic,
    ).with("metadata", metadata).object();
    let mut call: ApiCall = send_call("POST", host, "/20160918/instances".to_owned(), body);
    call.headers = Query::new().with("opc-retry-token", hex_text(clock).as_str()).pairs;
    call
}

/// The question for one instance.
pub open spec fn instance_path_view(host: Seq<char>, instance_id: Seq<char>) -> CallView {
    get_view(host, "/20160918/instances/"@ + instance_id, no_query())
}

/// The question for one instance.
pub fn get_instance(host: &str, instance_id: &str) -> (call: ApiCall)
    ensures
        call@ == instance_path_view(host@, instance_id@),
{
    get_call(host, concat("/20160918/instances/", instance_id), Query::new())
}

/// How long is rested between two questions whether an instance runs, in
/// seconds.
pub const RUNNING_REST: u64 = 10;

/// Waiting for an instance to run.
pub struct RunningWait {
    pub host: String,
    pub instance_id: String,
}

/// Which instance is waited for.
pub struct RunningWaitView {
    pub host: Seq<char>,
    pub instance_id: Seq<char>,
}

impl View for RunningWait {
    type V = RunningWaitView;

    open spec fn view(&self) -> RunningWaitView {
        RunningWaitView { host: self.host@, instance_id: self.instance_id@ }
    }
}

impl RunningWaitView {
    /// The question whether the instance runs.
    pub open spec fn call(self) -> CallView {
        instance_path_view(self.host, self.instance_id)
    }

    /// What an answer comes to: the instance runs, or will never, or is asked
    /// for again.
    pub open spec fn next(self, answer: AnswerView) -> TurnView<RunningWaitView, JsonTree> {
        match answer {
            Err(error) => TurnView::Stop { after: 0, error },
            Ok(tree) => if state_is(tree, "RUNNING"@) {
                TurnView::Done(tree)
            } else if state_is(tree, "TERMINATED"@) {
                TurnView::Stop {
                    after: 0,
                    error: ErrorView::Other("terminated during provisioning"@),
                }
            } else if state_is(tree, "FAULTED"@) || state_is(tree, "FAILED"@) {
                TurnView::Stop { after: 0, error: ErrorView::Other("provisioning FAILED"@) }
            } else {
                TurnView::Go { state: self, after: RUNNING_REST, call: self.call() }
            },
        }
    }
}

impl RunningWait {
    /// Starts waiting.
    pub fn start(host: &str, instance_id: &str) -> (begun: (RunningWait, ApiCall))
        ensures
            begun.0@ == (RunningWaitView { host: host@, instance_id: instance_id@ }),
            begun.1@ == begun.0@.call(),
    {
        let wait: RunningWait = RunningWait {
            host: host.to_owned(),
            instance_id: instance_id.to_owned(),
        };
        (wait, get_instance(host, instance_id))
    }

    /// Takes an answer.
    pub fn wait_for_running(self, answer: Answer) -> (turn: Turn<RunningWait, Json>)
        ensures
            turn@ == self@.next(answer_view(answer)),
    {
        let v: Json = match answer {
            Ok(v) => v,
            Err(error) => return Turn::Stop { after: 0, error },
        };
        let state: Option<String> = get_str(&v, "lifecycleState");
        if reads(&state, "RUNNING") {
            Turn::Done(v)
        } else if reads(&state, "TERMINATED") {
            Turn::Stop {
                after: 0,
                error: ApiError::Other("terminated during provisioning".to_owned()),
            }
        } else if reads(&state, "FAULTED") || reads(&state, "FAILED") {
            Turn::Stop { after: 0, error: ApiError::Other("provisioning FAILED".to_owned()) }
        } else {
            let call: ApiCall = get_instance(self.host.as_str(), self.instance_id.as_str());
            Turn::Go { state: self, after: RUNNING_REST, call }
        }
    }
}

// Addresses.

/// The addresses of an instance, as far as they are known.
#[derive(Debug, PartialEq)]
pub struct Addresses {
    pub public: Option<String>,
    pub private: Option<String>,
}

/// The addresses of an instance, as far as they are known.
pub struct AddressesView {
    pub public: Option<Seq<char>>,
    pub private: Option<Seq<char>>,
}

impl View for Addresses {
    type V = AddressesView;

    open spec fn view(&self) -> AddressesView {
        AddressesView { public: opt_view(self.public), private: opt_view(self.private) }
    }
}

impl Addresses {
    /// No addresses.
    pub fn unknown() -> (none: Addresses)
        ensures
            none@ == unknown(),
    {
        Addresses { public: None, private: None }
    }
}

/// How far a lookup of addresses is.
pub enum LookupStage {
    /// The attachments of the instance are asked for.
    Attachments,
    /// The interface of an attachment is asked for; `rest` may follow.
    Interface { rest: Vec<Json> },
}

/// A lookup of the addresses of an instance.
pub struct AddressLookup {
    pub host: String,
    pub compartment: String,
    pub instance_id: String,
    pub stage: LookupStage,
}

/// How far a lookup of addresses is.
pub enum LookupStageView {
    Attachments,
    Interface { rest: Seq<JsonTree> },
}

/// Whose addresses are looked up, and how far that is.
pub struct LookupView {
    pub host: Seq<char>,
    pub compartment: Seq<char>,
    pub instance_id: Seq<char>,
    pub stage: LookupStageView,
}

impl View for AddressLookup {
    type V = LookupView;

    open spec fn view(&self) -> LookupView {
        LookupView {
            host: self.host@,
            compartment: self.compartment@,
            instance_id: self.instance_id@,
            stage: match self.stage {
                LookupStage::Attachments => LookupStageView::Attachments,
                LookupStage::Interface { rest } => LookupStageView::Interface {
                    rest: trees(rest@),
                },
            },
        }
    }
}

/// Whether an attachment is in place and names its interface.
pub open spec fn is_attached(tree: JsonTree) -> bool {
    state_is(tree, "ATTACHED"@) && text_field(tree, "vnicId"@) is Some
}

/// The first position at or behind `from` whose attachment is in place and names
/// its interface, or the number of items.
pub open spec fn next_attached(items: Seq<JsonTree>, from: int) -> int
    decreases items.len() - from,
{
    if from < 0 || from >= items.len() {
        items.len() as int
    } else if is_attached(items[from]) {
        from
    } else {
        next_attached(items, from + 1)
    }
}

/// No addresses.
pub open spec fn unknown() -> AddressesView {
    AddressesView { public: None, private: None }
}

impl LookupView {
    /// The question for the attachments of the instance.
    pub open spec fn call(self) -> CallView {
        get_view(
            self.host,
            "/20160918/vnicAttachments"@,
            no_query().push(("compartmentId"@, self.compartment)).push(
                ("instanceId"@, self.instance_id),
            ),
        )
    }

    /// What comes next in a lookup that has yet to look at `attachments`.
    pub open spec fn look(self, attachments: Seq<JsonTree>) -> TurnView<LookupView, AddressesView> {
        let at = next_attached(attachments, 0);
        if at < attachments.len() {
            TurnView::Go {
                state: LookupView {
                    stage: LookupStageView::Interface { rest: attachments.skip(at + 1) },
                    ..self
                },
                after: 0,
                call: get_view(
                    self.host,
                    "/20160918/vnics/"@ + text_or_empty(attachments[at], "vnicId"@),
                    no_query(),
                ),
            }
        } else {
            TurnView::Done(unknown())
        }
    }

    /// What an answer comes to: the addresses of the first interface that
    /// answers, or none. An error ends the lookup only where it is the answer to
    /// the question for the attachments, and then without addresses.
    pub open spec fn next(self, answer: AnswerView) -> TurnView<LookupView, AddressesView> {
        match self.stage {
            LookupStageView::Attachments => match answer {
                Ok(tree) => self.look(items_of(tree)),
                Err(_) => TurnView::Done(unknown()),
            },
            LookupStageView::Interface { rest } => match answer {
                Ok(tree) => TurnView::Done(
                    AddressesView {
                        public: text_field(tree, "publicIp"@),
                        private: text_field(tree, "privateIp"@),
                    },
                ),
                Err(_) => self.look(rest),
            },
        }
    }
}

fn find_attached(items: &Vec<Json>) -> (at: usize)
    ensures
        at <= items@.len(),
        at == next_attached(trees(items@), 0),
{
    let mut at: usize = 0;
    while at < items.len()
        invariant
            at <= items@.len(),
            next_attached(trees(items@), 0) == next_attached(trees(items@), at as int),
        decreases items@.len() - at,
    {
        if reads(&get_str(&items[at], "lifecycleState"), "ATTACHED") && get_str(
            &items[at],
            "vnicId",
        ).is_some() {
            return at;
        }
        at = at + 1;
    }
    at
}

impl AddressLookup {
    /// Starts a lookup.
    pub fn start(host: &str, compartment: &str, instance_id: &str) -> (begun: (
        AddressLookup,
        ApiCall,
    ))
        ensures
            begun.0@ == (LookupView {
                host: host@,
                compartment: compartment@,
                instance_id: instance_id@,
                stage: LookupStageView::Attachments,
            }),
            begun.1@ == begun.0@.call(),
    {
        let lookup: AddressLookup = AddressLookup {
            host: host.to_owned(),
            compartment: compartment.to_owned(),
            instance_id: instance_id.to_owned(),
            stage: LookupStage::Attachments,
        };
        let call: ApiCall = get_call(
            host,
            "/20160918/vnicAttachments".to_owned(),
            Query::new().with("compartmentId", compartment).with("instanceId", instance_id),
        );
        (lookup, call)
    }

    fn look(
        host: String,
        compartment: String,
        instance_id: String,
        attachments: Vec<Json>,
    ) -> (turn: Turn<AddressLookup, Addresses>)
        ensures
            forall|stage: LookupStageView|
                turn@ == (#[trigger] (LookupView {
                    host: host@,
                    compartment: compartment@,
                    instance_id: instance_id@,
                    stage,
                }).look(trees(attachments@))),
    {
        let ghost all = trees(attachments@);
        let at: usize = find_attached(&attachments);
        if at == attachments.len() {
            return Turn::Done(Addresses::unknown());
        }
        let mut front: Vec<Json> = attachments;
        let rest: Vec<Json> = front.split_off(at + 1);
        assert(trees(rest@) =~= all.skip(at + 1));
        let vnic_id: String = get_str_or_empty(&front[at], "vnicId");
        let path: String = concat("/20160918/vnics/", vnic_id.as_str());
        let call: ApiCall = get_call(host.as_str(), path, Query::new());
        Turn::Go {
            state: AddressLookup {
                host,
                compartment,
                instance_id,
                stage: LookupStage::Interface { rest },
            },
            after: 0,
            call,
        }
    }

    /// Takes an answer.
    pub fn get_instance_ip(self, answer: Answer) -> (turn: Turn<AddressLookup, Addresses>)
        ensures
            turn@ == self@.next(answer_view(answer)),
    {
        match self.stage {
            LookupStage::Attachments => match answer {
                Ok(v) => AddressLookup::look(
                    self.host,
                    self.compartment,
                    self.instance_id,
                    into_items(v),
                ),
                Err(_) => Turn::Done(Addresses::unknown()),
            },
            LookupStage::Interface { rest } => match answer {
                Ok(v) => Turn::Done(
                    Addresses {
                        public: get_str(&v, "publicIp"),
                        private: get_str(&v, "privateIp"),
                    },
                ),
                Err(_) => AddressLookup::look(
                    self.host,
                    self.compartment,
                    self.instance_id,
                    rest,
                ),
            },
        }
    }
}

/// The image that is found is the first that the service lists for the wanted
/// version, which it is asked to list from the latest on; where it lists none,
/// the same of any version.
pub proof fn law_image_is_the_first_listed(
    search: ImageSearchView,
    exact: JsonTree,
    wider: JsonTree,
)
    requires
        !search.any_version,
    ensures
        items_of(exact).len() > 0 ==> search.next(Ok(exact)) == TurnView::<
            ImageSearchView,
            JsonTree,
        >::Done(items_of(exact)[0]),
        items_of(exact).len() == 0 ==> ({
            let turn = search.next(Ok(exact));
            &&& turn is Go
            &&& turn->call == images_view(search.host, search.compartment, search.os_name, None)
            &&& match turn->state.next(Ok(wider)) {
                TurnView::Done(image) => items_of(wider).len() > 0 && image == items_of(wider)[0],
                TurnView::Stop { error, .. } => items_of(wider).len() == 0 && error == no_image(
                    search.os_name,
                ),
                TurnView::Go { .. } => false,
            }
        }),
{
}

/// An instance that is found is live, and the first such.
pub proof fn law_live_instance_is_the_first(tree: JsonTree)
    ensures
        match live_instance(Ok(tree)) {
            Ok(Some(instance)) => exists|n: int|
                {
                    &&& 0 <= n < items_of(tree).len()
                    &&& instance == #[trigger] items_of(tree)[n]
                    &&& is_live(instance)
                    &&& forall|i: int| 0 <= i < n ==> !is_live(#[trigger] items_of(tree)[i])
                },
            Ok(None) => forall|i: int|
                0 <= i < items_of(tree).len() ==> !is_live(#[trigger] items_of(tree)[i]),
            Err(_) => false,
        },
{
    lemma_next_live(items_of(tree), 0);
}

proof fn lemma_next_live(items: Seq<JsonTree>, from: int)
    requires
        0 <= from <= items.len(),
    ensures
        from <= next_live(items, from) <= items.len(),
        next_live(items, from) < items.len() ==> is_live(items[next_live(items, from)]),
        forall|i: int| from <= i < next_live(items, from) ==> !is_live(#[trigger] items[i]),
    decreases items.len() - from,
{
    if from < items.len() && !is_live(items[from]) {
        lemma_next_live(items, from + 1);
    }
}

proof fn lemma_next_attached(items: Seq<JsonTree>, from: int)
    requires
        0 <= from <= items.len(),
    ensures
        from <= next_attached(items, from) <= items.len(),
        next_attached(items, from) < items.len() ==> is_attached(
            items[next_attached(items, from)],
        ),
        forall|i: int|
            from <= i < next_attached(items, from) ==> !is_attached(#[trigger] items[i]),
    decreases items.len() - from,
{
    if from < items.len() && !is_attached(items[from]) {
        lemma_next_attached(items, from + 1);
    }
}

/// A wait for an instance ends well exactly when the instance runs, and goes on
/// as long as it neither runs nor is lost.
pub proof fn law_wait_ends_when_running(wait: RunningWaitView, answer: AnswerView)
    ensures
        wait.next(answer) is Done <==> answer is Ok && state_is(answer->Ok_0, "RUNNING"@),
        wait.next(answer) is Go ==> wait.next(answer)->state == wait && wait.next(answer)->call
            == wait.call(),
{
}

/// A lookup of addresses never fails, and comes to an end: each further question
/// leaves fewer attachments to look at.
pub proof fn law_lookup_never_fails(lookup: LookupView, answer: AnswerView)
    ensures
        !(lookup.next(answer) is Stop),
        lookup.next(answer) is Go ==> lookup.next(answer)->state.stage is Interface,
        lookup.next(answer) is Go && lookup.stage is Interface
            ==> lookup.next(answer)->state.stage->rest.len() < lookup.stage->rest.len(),
{
    if answer is Ok {
        lemma_next_attached(items_of(answer->Ok_0), 0);
    }
    if lookup.stage is Interface {
        lemma_next_attached(lookup.stage->rest, 0);
    }
}

/// The question for the availability domains is put to the given host, for the
/// given compartment.
pub proof fn law_domains_are_asked_for(host: Seq<char>, compartment: Seq<char>)
    ensures
        asks(
            domains_view(host, compartment),
            host,
            "/20160918/availabilityDomains"@,
            seq![("compartmentId"@, compartment)],
        ),
{
}

/// The availability domains are the names of the listed items, unchanged and in
/// their order: where every item has a name there are as many as items, and each
/// is the name of the item at its place.
pub proof fn law_domains_are_the_names(items: Seq<JsonTree>)
    requires
        forall|i: int| 0 <= i < items.len() ==> text_field(#[trigger] items[i], "name"@) is Some,
    ensures
        names_of(items).len() == items.len(),
        forall|i: int|
            0 <= i < items.len() ==> text_field(items[i], "name"@) == Some(
                #[trigger] names_of(items)[i],
            ),
    decreases items.len(),
{
    if items.len() > 0 {
        let front = items.drop_last();
        assert(text_field(items[items.len() - 1], "name"@) is Some);
        assert forall|i: int| 0 <= i < front.len() implies text_field(
            #[trigger] front[i],
            "name"@,
        ) is Some by {
            assert(text_field(items[i], "name"@) is Some);
        }
        law_domains_are_the_names(front);
        assert forall|i: int| 0 <= i < items.len() implies text_field(items[i], "name"@) == Some(
            #[trigger] names_of(items)[i],
        ) by {
            if i < front.len() {
                assert(names_of(items)[i] == names_of(front)[i]);
                assert(front[i] == items[i]);
            }
        }
    }
}

/// Every availability domain is the name of some listed item, every name is
/// among them, and items without a name bring none.
pub proof fn law_every_domain_is_a_name(items: Seq<JsonTree>)
    ensures
        forall|j: int|
            0 <= j < names_of(items).len() ==> exists|i: int|
                0 <= i < items.len() && text_field(#[trigger] items[i], "name"@) == Some(
                    #[trigger] names_of(items)[j],
                ),
        forall|i: int|
            0 <= i < items.len() && text_field(#[trigger] items[i], "name"@) is Some ==> names_of(
                items,
            ).contains(text_field(items[i], "name"@)->0),
        names_of(items).len() <= items.len(),
    decreases items.len(),
{
    if items.len() > 0 {
        let front = items.drop_last();
        let last = items[items.len() - 1];
        law_every_domain_is_a_name(front);
        assert forall|j: int| 0 <= j < names_of(items).len() implies exists|i: int|
            0 <= i < items.len() && text_field(#[trigger] items[i], "name"@) == Some(
                #[trigger] names_of(items)[j],
            ) by {
            if j < names_of(front).len() {
                assert(names_of(items)[j] == names_of(front)[j]);
                let i = choose|i: int|
                    0 <= i < front.len() && text_field(#[trigger] front[i], "name"@) == Some(
                        names_of(front)[j],
                    );
                assert(items[i] == front[i]);
            } else {
                assert(text_field(last, "name"@) == Some(names_of(items)[j]));
            }
        }
        assert forall|i: int|
            0 <= i < items.len() && text_field(#[trigger] items[i], "name"@) is Some implies names_of(
            items,
        ).contains(text_field(items[i], "name"@)->0) by {
            if i < front.len() {
                assert(front[i] == items[i]);
                let name = text_field(items[i], "name"@)->0;
                let j = choose|j: int| 0 <= j < names_of(front).len() && names_of(front)[j] == name;
                assert(names_of(items)[j] == name);
            } else {
                assert(names_of(items).last() == text_field(items[i], "name"@)->0);
            }
        }
    }
}

/// The domains of two lists, one behind the other, are those of the first and
/// behind them those of the second.
pub proof fn law_domains_keep_their_order(items: Seq<JsonTree>, more: Seq<JsonTree>)
    ensures
        names_of(items + more) == names_of(items) + names_of(more),
    decreases more.len(),
{
    if more.len() == 0 {
        assert(items + more =~= items);
        assert(names_of(items) + names_of(more) =~= names_of(items));
    } else {
        law_domains_keep_their_order(items, more.drop_last());
        assert((items + more).drop_last() =~= items + more.drop_last());
        assert((items + more).last() == more.last());
        assert(names_of(items + more) =~= names_of(items) + names_of(more));
    }
}

/// A listing of availability domains is good where it has a name, and an error
/// of the service stays that error.
pub proof fn law_domains_need_a_name(tree: JsonTree, error: ErrorView)
    ensures
        domains_of(Err(error)) == Err::<Seq<Seq<char>>, ErrorView>(error),
        names_of(items_of(tree)).len() > 0 ==> domains_of(Ok(tree)) == Ok::<
            Seq<Seq<char>>,
            ErrorView,
        >(names_of(items_of(tree))),
        names_of(items_of(tree)).len() == 0 ==> domains_of(Ok(tree)) == Err::<
            Seq<Seq<char>>,
            ErrorView,
        >(ErrorView::Other("No availability domains found in compartment."@)),
{
}

/// Images are asked for by compartment, operating system and shape, from the
/// latest on, and by version unless any will do.
pub proof fn law_images_are_asked_for(search: ImageSearchView)
    ensures
        !search.any_version ==> asks(
            search.call(),
            search.host,
            "/20160918/images"@,
            seq![
                ("compartmentId"@, search.compartment),
                ("operatingSystem"@, search.os_name),
                ("operatingSystemVersion"@, search.os_version),
                ("shape"@, "VM.Standard.A1.Flex"@),
                ("sortBy"@, "TIMECREATED"@),
                ("sortOrder"@, "DESC"@),
            ],
        ),
        search.any_version ==> asks(
            search.call(),
            search.host,
            "/20160918/images"@,
            seq![
                ("compartmentId"@, search.compartment),
                ("operatingSystem"@, search.os_name),
                ("shape"@, "VM.Standard.A1.Flex"@),
                ("sortBy"@, "TIMECREATED"@),
                ("sortOrder"@, "DESC"@),
            ],
        ),
{
}

/// A search for an image brings the first that is listed, fails with the errors
/// of the service, and widens once, to the same search for any version, and only
/// where nothing is listed; where nothing is listed then, it says so.
pub proof fn law_image_search_widens_once(search: ImageSearchView, answer: AnswerView)
    ensures
        match search.next(answer) {
            TurnView::Done(image) => answer is Ok && items_of(answer->Ok_0).len() > 0 && image
                == items_of(answer->Ok_0)[0],
            TurnView::Go { state, after, call } => {
                &&& answer is Ok && items_of(answer->Ok_0).len() == 0
                &&& !search.any_version
                &&& state == (ImageSearchView { any_version: true, ..search })
                &&& after == 0
                &&& call == state.call()
            },
            TurnView::Stop { after, error } => {
                &&& after == 0
                &&& match answer {
                    Err(e) => error == e,
                    Ok(tree) => items_of(tree).len() == 0 && search.any_version && error
                        == ErrorView::Other(
                        "No "@ + search.os_name + " images found for shape "@
                            + "VM.Standard.A1.Flex"@ + ". Try setting OS_NAME / OS_VERSION."@,
                    ),
                }
            },
        },
{
}

/// Instances are asked for by compartment and name, and one by its identifier.
pub proof fn law_instances_are_asked_for(
    host: Seq<char>,
    compartment: Seq<char>,
    display_name: Seq<char>,
    instance_id: Seq<char>,
)
    ensures
        asks(
            instances_view(host, compartment, display_name),
            host,
            "/20160918/instances"@,
            seq![("compartmentId"@, compartment), ("displayName"@, display_name)],
        ),
        asks(
            instance_path_view(host, instance_id),
            host,
            "/20160918/instances/"@ + instance_id,
            seq![],
        ),
{
}

/// An instance is live where it is being provisioned, runs or starts, by its own
/// word, and in no other state.
pub proof fn law_live_states(tree: JsonTree, error: ErrorView)
    ensures
        is_live(tree) <==> text_field(tree, "lifecycleState"@) is Some && {
            let state = text_field(tree, "lifecycleState"@)->0;
            state == "PROVISIONING"@ || state == "RUNNING"@ || state == "STARTING"@
        },
        live_instance(Err(error)) == Err::<Option<JsonTree>, ErrorView>(error),
{
}

proof fn lemma_launch_keys()
    ensures
        "displayName"@ != "shapeConfig"@,
        "compartmentId"@ != "sourceDetails"@,
        "displayName"@.len() == 11,
        "shapeConfig"@.len() == 11,
        "compartmentId"@.len() == 13,
        "sourceDetails"@.len() == 13,
        "availabilityDomain"@.len() == 18,
        "shape"@.len() == 5,
        "createVnicDetails"@.len() == 17,
        "metadata"@.len() == 8,
        "ocpus"@.len() == 5,
        "memoryInGBs"@.len() == 11,
        "sourceType"@.len() == 10,
        "imageId"@.len() == 7,
        "bootVolumeSizeInGBs"@.len() == 19,
        "subnetId"@.len() == 8,
        "assignPublicIp"@.len() == 14,
{
    reveal_strlit("displayName");
    reveal_strlit("shapeConfig");
    reveal_strlit("compartmentId");
    reveal_strlit("sourceDetails");
    reveal_strlit("availabilityDomain");
    reveal_strlit("shape");
    reveal_strlit("createVnicDetails");
    reveal_strlit("metadata");
    reveal_strlit("ocpus");
    reveal_strlit("memoryInGBs");
    reveal_strlit("sourceType");
    reveal_strlit("imageId");
    reveal_strlit("bootVolumeSizeInGBs");
    reveal_strlit("subnetId");
    reveal_strlit("assignPublicIp");
    assert("displayName"@[0] != "shapeConfig"@[0]);
    assert("compartmentId"@[0] != "sourceDetails"@[0]);
}

/// The value of a field of an object in a field of an object.
pub open spec fn inner_field(tree: JsonTree, outer: Seq<char>, key: Seq<char>) -> Option<JsonTree> {
    match field(tree, outer) {
        Some(part) => field(part, key),
        None => None,
    }
}

/// A launch asks for what is wanted: each wanted value stands in its own field
/// of the request, as it is, and there are no fields for anything else.
pub proof fn law_launch_carries_the_plan(plan: PlanView, domain: Seq<char>)
    ensures
        ({
            let body = launch_body(plan, domain);
            &&& text_field(body, "displayName"@) == Some(plan.display_name)
            &&& text_field(body, "compartmentId"@) == Some(plan.compartment)
            &&& text_field(body, "availabilityDomain"@) == Some(domain)
            &&& text_field(body, "shape"@) == Some("VM.Standard.A1.Flex"@)
            &&& inner_field(body, "shapeConfig"@, "ocpus"@) == Some(plan.ocpus)
            &&& inner_field(body, "shapeConfig"@, "memoryInGBs"@) == Some(plan.memory_gb)
            &&& inner_field(body, "sourceDetails"@, "sourceType"@) == Some(
                JsonTree::Text("image"@),
            )
            &&& inner_field(body, "sourceDetails"@, "imageId"@) == Some(
                JsonTree::Text(plan.image_id),
            )
            &&& inner_field(body, "sourceDetails"@, "bootVolumeSizeInGBs"@) == Some(
                JsonTree::Number(signed_decimal(plan.boot_volume_gb)),
            )
            &&& inner_field(body, "createVnicDetails"@, "subnetId"@) == Some(
                JsonTree::Text(plan.subnet_id),
            )
            &&& inner_field(body, "createVnicDetails"@, "assignPublicIp"@) == Some(
                JsonTree::Bool(plan.assign_public_ip),
            )
            &&& inner_field(body, "metadata"@, "ssh_authorized_keys"@) == Some(
                JsonTree::Text(plan.ssh_pub_key),
            )
            &&& has_only(
                body,
                set![
                    "displayName"@,
                    "compartmentId"@,
                    "availabilityDomain"@,
                    "shape"@,
                    "shapeConfig"@,
                    "sourceDetails"@,
                    "createVnicDetails"@,
                    "metadata"@,
                ],
            )
            &&& has_only(field(body, "shapeConfig"@)->0, set!["ocpus"@, "memoryInGBs"@])
            &&& has_only(
                field(body, "sourceDetails"@)->0,
                set!["sourceType"@, "imageId"@, "bootVolumeSizeInGBs"@],
            )
            &&& has_only(field(body, "createVnicDetails"@)->0, set!["subnetId"@, "assignPublicIp"@])
            &&& has_only(field(body, "metadata"@)->0, set!["ssh_authorized_keys"@])
        }),
{
    lemma_launch_keys();
}

/// Launches of two plans, or into two domains, are different requests.
pub proof fn law_launches_tell_plans_apart(
    a: PlanView,
    b: PlanView,
    domain: Seq<char>,
    other: Seq<char>,
)
    requires
        launch_body(a, domain) == launch_body(b, other),
    ensures
        a == b,
        domain == other,
{
    law_launch_carries_the_plan(a, domain);
    law_launch_carries_the_plan(b, other);
    law_decimal_tells_numbers_apart(a.boot_volume_gb, b.boot_volume_gb);
}

/// A launch is handed to the instances of the given host, with a retry token that
/// no launch at another time has.
pub proof fn law_launch_has_its_own_token(
    host: Seq<char>,
    plan: PlanView,
    domain: Seq<char>,
    clock: nat,
    other: nat,
)
    ensures
        ({
            let call = launch_view(host, plan, domain, clock);
            &&& hands(call, "POST"@, host, "/20160918/instances"@)
            &&& call.body == Some(launch_body(plan, domain))
            &&& call.headers =~= seq![("opc-retry-token"@, hex(clock))]
            &&& clock != other ==> call.headers[0].1 != launch_view(
                host,
                plan,
                domain,
                other,
            ).headers[0].1
        }),
{
    law_hexadecimal_is_reversible(clock);
    law_hexadecimal_is_reversible(other);
}

/// A wait for an instance goes on, after ten seconds and with the same question,
/// exactly where the answer shows the instance in none of the states that end
/// it; it ends well where the instance runs, and badly where it is gone or broken
/// or the service answers with an error.
pub proof fn law_wait_goes_on_until_a_final_state(wait: RunningWaitView, answer: AnswerView)
    ensures
        ({
            let turn = wait.next(answer);
            match answer {
                Err(error) => turn is Stop && turn->error == error && turn->Stop_after == 0,
                Ok(tree) => {
                    let state = text_field(tree, "lifecycleState"@);
                    &&& turn is Done <==> state == Some("RUNNING"@)
                    &&& turn is Done ==> turn->Done_0 == tree
                    &&& turn is Go <==> state != Some("RUNNING"@) && state != Some("TERMINATED"@)
                        && state != Some("FAULTED"@) && state != Some("FAILED"@)
                    &&& turn is Go ==> turn->Go_after == 10 && turn->state == wait && asks(
                        turn->call,
                        wait.host,
                        "/20160918/instances/"@ + wait.instance_id,
                        seq![],
                    )
                    &&& turn is Stop ==> turn->Stop_after == 0 && turn->error == ErrorView::Other(
                        if state == Some("TERMINATED"@) {
                            "terminated during provisioning"@
                        } else {
                            "provisioning FAILED"@
                        },
                    )
                },
            }
        }),
{
    reveal_strlit("RUNNING");
    reveal_strlit("TERMINATED");
    reveal_strlit("FAULTED");
    reveal_strlit("FAILED");
    assert("RUNNING"@[0] != "FAULTED"@[0]);
    assert("RUNNING"@.len() != "TERMINATED"@.len());
    assert("RUNNING"@.len() != "FAILED"@.len());
    assert("TERMINATED"@.len() != "FAULTED"@.len());
    assert("TERMINATED"@.len() != "FAILED"@.len());
}

/// What a lookup that has yet to look at `attachments` does: it asks for the
/// interface of the first that is in place and names one, and keeps those behind
/// it; where there is none, it ends without addresses.
pub open spec fn looks_at_first(
    lookup: LookupView,
    attachments: Seq<JsonTree>,
    turn: TurnView<LookupView, AddressesView>,
) -> bool {
    match turn {
        TurnView::Go { state, after, call } => exists|n: int|
            {
                &&& 0 <= n < attachments.len()
                &&& text_field(#[trigger] attachments[n], "lifecycleState"@) == Some("ATTACHED"@)
                &&& text_field(attachments[n], "vnicId"@) is Some
                &&& forall|i: int|
                    0 <= i < n ==> text_field(#[trigger] attachments[i], "lifecycleState"@) != Some(
                        "ATTACHED"@,
                    ) || text_field(attachments[i], "vnicId"@) is None
                &&& asks(
                    call,
                    lookup.host,
                    "/20160918/vnics/"@ + text_field(attachments[n], "vnicId"@)->0,
                    seq![],
                )
                &&& after == 0
                &&& state.host == lookup.host
                &&& state.stage == (LookupStageView::Interface { rest: attachments.skip(n + 1) })
            },
        TurnView::Done(addresses) => {
            &&& addresses.public is None
            &&& addresses.private is None
            &&& forall|i: int|
                0 <= i < attachments.len() ==> text_field(
                    #[trigger] attachments[i],
                    "lifecycleState"@,
                ) != Some("ATTACHED"@) || text_field(attachments[i], "vnicId"@) is None
        },
        TurnView::Stop { .. } => false,
    }
}

/// A lookup asks for the attachments of the instance, then for the interface of
/// each that is in place and names one, in their order, up to the first that
/// answers; the addresses are those that this one tells.
pub proof fn law_lookup_takes_the_first_interface(lookup: LookupView, answer: AnswerView)
    ensures
        asks(
            lookup.call(),
            lookup.host,
            "/20160918/vnicAttachments"@,
            seq![("compartmentId"@, lookup.compartment), ("instanceId"@, lookup.instance_id)],
        ),
        match (lookup.stage, answer) {
            (LookupStageView::Attachments, Ok(tree)) => looks_at_first(
                lookup,
                items_of(tree),
                lookup.next(answer),
            ),
            (LookupStageView::Attachments, Err(_)) => looks_at_first(
                lookup,
                seq![],
                lookup.next(answer),
            ),
            (LookupStageView::Interface { rest }, Err(_)) => looks_at_first(
                lookup,
                rest,
                lookup.next(answer),
            ),
            (LookupStageView::Interface { .. }, Ok(tree)) => {
                &&& lookup.next(answer) is Done
                &&& lookup.next(answer)->Done_0.public == text_field(tree, "publicIp"@)
                &&& lookup.next(answer)->Done_0.private == text_field(tree, "privateIp"@)
            },
        },
{
    if answer is Ok {
        lemma_looks_at_first(lookup, items_of(answer->Ok_0));
    }
    if lookup.stage is Interface {
        lemma_looks_at_first(lookup, lookup.stage->rest);
    }
}

proof fn lemma_looks_at_first(lookup: LookupView, attachments: Seq<JsonTree>)
    ensures
        looks_at_first(lookup, attachments, lookup.look(attachments)),
{
    lemma_next_attached(attachments, 0);
    let at = next_attached(attachments, 0);
    assert forall|i: int| 0 <= i < at implies text_field(
        #[trigger] attachments[i],
        "lifecycleState"@,
    ) != Some("ATTACHED"@) || text_field(attachments[i], "vnicId"@) is None by {
        assert(!is_attached(attachments[i]));
    }
    if at < attachments.len() {
        assert(is_attached(attachments[at]));
    }
}

} // verus!
