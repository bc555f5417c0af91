//! The whole way to an instance: what to do next, given each answer.

use vstd::prelude::*;

use crate::error::{ApiError, ErrorView};
use crate::flow::{Answer, AnswerView, Turn, TurnView};
use crate::json::{get_str_or_empty, number_tree, text_or_empty, Json, JsonTree};
use crate::network::{
    vcns_view, Found, FoundView, NetworkSearch, SearchStageView, SearchView,
};
use crate::network_setup::{named_vcn_view, NetworkSetup, SetupStageView, SetupView};
use crate::request::{answer_view, ApiCall, CallView};
use crate::resources::{
    check_existing_instance, domains_call, domains_of, domains_view, instances_call,
    instances_view, launch_instance, launch_view, list_availability_domains, live_instance,
    unknown, AddressLookup, Addresses, AddressesView, ImageSearch, ImageSearchView, LaunchPlan,
    LookupStageView, LookupView, PlanView, RunningWait, RunningWaitView,
};
use crate::retry::{Retry, Verdict};
use crate::text::views;

verus! {

/// What is wanted.
pub struct Job {
    pub identity_host: String,
    pub iaas_host: String,
    pub compartment: String,
    pub display_name: String,
    pub os_name: String,
    pub os_version: String,
    pub vcn_cidr: String,
    pub subnet_cidr: String,
    pub ssh_pub_key: String,
    pub ocpus: Option<serde_json::Number>,
    pub memory_gb: Option<serde_json::Number>,
    pub boot_volume_gb: i64,
    pub assign_public_ip: bool,
    pub initial_backoff: i64,
    pub max_backoff: i64,
    pub max_retries: i64,
    pub dry_run: bool,
}

/// What is wanted.
pub struct JobView {
    pub identity_host: Seq<char>,
    pub iaas_host: Seq<char>,
    pub compartment: Seq<char>,
    pub display_name: Seq<char>,
    pub os_name: Seq<char>,
    pub os_version: Seq<char>,
    pub vcn_cidr: Seq<char>,
    pub subnet_cidr: Seq<char>,
    pub ssh_pub_key: Seq<char>,
    pub ocpus: JsonTree,
    pub memory_gb: JsonTree,
    pub boot_volume_gb: int,
    pub assign_public_ip: bool,
    pub initial_backoff: i64,
    pub max_backoff: i64,
    pub max_retries: i64,
    pub dry_run: bool,
}

impl View for Job {
    type V = JobView;

    open spec fn view(&self) -> JobView {
        JobView {
            identity_host: self.identity_host@,
            iaas_host: self.iaas_host@,
            compartment: self.compartment@,
            display_name: self.display_name@,
            os_name: self.os_name@,
            os_version: self.os_version@,
            vcn_cidr: self.vcn_cidr@,
            subnet_cidr: self.subnet_cidr@,
            ssh_pub_key: self.ssh_pub_key@,
            ocpus: number_tree(self.ocpus),
            memory_gb: number_tree(self.memory_gb),
            boot_volume_gb: self.boot_volume_gb as int,
            assign_public_ip: self.assign_public_ip,
            initial_backoff: self.initial_backoff,
            max_backoff: self.max_backoff,
            max_retries: self.max_retries,
            dry_run: self.dry_run,
        }
    }
}

/// The availability domains that instances are tried in; there is one at least.
pub struct Domains {
    names: Vec<String>,
}

impl View for Domains {
    type V = Seq<Seq<char>>;

    closed spec fn view(&self) -> Seq<Seq<char>> {
        views(self.names@)
    }
}

/// The domain that a try is made in: they take turns.
pub open spec fn domain_for(domains: Seq<Seq<char>>, tries: u64) -> Seq<char> {
    domains[tries as int % domains.len() as int]
}

impl Domains {
    #[verifier::type_invariant]
    spec fn nonempty(self) -> bool {
        self.names@.len() > 0
    }

    fn new(names: Vec<String>) -> (domains: Domains)
        requires
            names@.len() > 0,
        ensures
            domains@ == views(names@),
    {
        Domains { names }
    }

    /// The names of the domains.
    pub fn names(&self) -> (names: &Vec<String>)
        ensures
            views(names@) == self@,
            names@.len() > 0,
    {
        proof {
            use_type_invariant(self);
        }
        &self.names
    }

    /// The domain that a try is made in.
    pub fn turn(&self, tries: u64) -> (name: String)
        ensures
            name@ == domain_for(self@, tries),
    {
        proof {
            use_type_invariant(self);
        }
        let at: usize = (tries % self.names.len() as u64) as usize;
        assert(at == tries as int % self.names@.len() as int);
        self.names[at].clone()
    }
}

/// The tries to launch an instance: where, from what, and how they go.
pub struct Attempt {
    pub domains: Domains,
    pub subnet_id: String,
    pub image_id: String,
    pub retry: Retry,
}

/// The tries to launch an instance.
pub struct AttemptView {
    pub domains: Seq<Seq<char>>,
    pub subnet_id: Seq<char>,
    pub image_id: Seq<char>,
    pub retry: Retry,
}

impl View for Attempt {
    type V = AttemptView;

    open spec fn view(&self) -> AttemptView {
        AttemptView {
            domains: self.domains@,
            subnet_id: self.subnet_id@,
            image_id: self.image_id@,
            retry: self.retry,
        }
    }
}

/// How far the way to an instance is: what is asked for.
pub enum Stage {
    /// The availability domains.
    Domains,
    /// A network with a public subnet.
    Search { domains: Domains, search: NetworkSearch },
    /// The making of a network.
    Setup { domains: Domains, setup: NetworkSetup },
    /// An image.
    Image { domains: Domains, subnet_id: String, images: ImageSearch },
    /// An instance of the wanted name.
    Existing { domains: Domains, subnet_id: String, image: Json },
    /// The addresses of such an instance.
    ExistingAddresses { instance: Json, lookup: AddressLookup },
    /// The launch of an instance.
    Launch { attempt: Attempt },
    /// Whether the instance runs.
    Running { instance_id: String, wait: RunningWait },
    /// The addresses of the instance.
    Addresses { instance_id: String, lookup: AddressLookup },
}

/// How far the way to an instance is.
pub enum StageView {
    Domains,
    Search { domains: Seq<Seq<char>>, search: SearchView },
    Setup { domains: Seq<Seq<char>>, setup: SetupView },
    Image { domains: Seq<Seq<char>>, subnet_id: Seq<char>, images: ImageSearchView },
    Existing { domains: Seq<Seq<char>>, subnet_id: Seq<char>, image: JsonTree },
    ExistingAddresses { instance: JsonTree, lookup: LookupView },
    Launch { attempt: AttemptView },
    Running { instance_id: Seq<char>, wait: RunningWaitView },
    Addresses { instance_id: Seq<char>, lookup: LookupView },
}

impl View for Stage {
    type V = StageView;

    open spec fn view(&self) -> StageView {
        match self {
            Stage::Domains => StageView::Domains,
            Stage::Search { domains, search } => StageView::Search {
                domains: domains@,
                search: search@,
            },
            Stage::Setup { domains, setup } => StageView::Setup {
                domains: domains@,
                setup: setup@,
            },
            Stage::Image { domains, subnet_id, images } => StageView::Image {
                domains: domains@,
                subnet_id: subnet_id@,
                images: images@,
            },
            Stage::Existing { domains, subnet_id, image } => StageView::Existing {
                domains: domains@,
                subnet_id: subnet_id@,
                image: image@,
            },
            Stage::ExistingAddresses { instance, lookup } => StageView::ExistingAddresses {
                instance: instance@,
                lookup: lookup@,
            },
            Stage::Launch { attempt } => StageView::Launch { attempt: attempt@ },
            Stage::Running { instance_id, wait } => StageView::Running {
                instance_id: instance_id@,
                wait: wait@,
            },
            Stage::Addresses { instance_id, lookup } => StageView::Addresses {
                instance_id: instance_id@,
                lookup: lookup@,
            },
        }
    }
}

/// What is wanted, and how far the way there is.
pub struct Provisioner {
    pub job: Job,
    pub stage: Stage,
}

/// What is wanted, and how far the way there is.
pub struct ProvisionView {
    pub job: JobView,
    pub stage: StageView,
}

impl View for Provisioner {
    type V = ProvisionView;

    open spec fn view(&self) -> ProvisionView {
        ProvisionView { job: self.job@, stage: self.stage@ }
    }
}

/// What is wanted, and the tries that are made for it.
pub struct Launcher {
    pub job: Job,
    pub attempt: Attempt,
}

/// What is wanted, and the tries that are made for it.
pub struct LauncherView {
    pub job: JobView,
    pub attempt: AttemptView,
}

impl View for Launcher {
    type V = LauncherView;

    open spec fn view(&self) -> LauncherView {
        LauncherView { job: self.job@, attempt: self.attempt@ }
    }
}

/// How the way ends.
pub enum Outcome {
    /// The availability domains could not be listed.
    DomainsFailed(ApiError),
    /// The networks could not be searched.
    SearchFailed(ApiError),
    /// No network could be made.
    SetupFailed(ApiError),
    /// No image was found.
    ImageFailed(ApiError),
    /// There already is an instance.
    Exists { instance: Json, addresses: Addresses },
    /// Everything was found, and nothing was to be launched.
    DryRun { domain: String, subnet_id: String, image: Json },
    /// There were as many tries as there may be.
    GaveUp,
    /// A launch failed, and no further one can succeed.
    Refused(ApiError),
    /// A launch failed in a way that is not known.
    Unexpected(ApiError),
    /// The instance was launched, and does not run.
    NotRunning(ApiError),
    /// The instance runs.
    Running { instance_id: String, addresses: Addresses },
}

/// How the way ends.
pub enum OutcomeView {
    DomainsFailed(ErrorView),
    SearchFailed(ErrorView),
    SetupFailed(ErrorView),
    ImageFailed(ErrorView),
    Exists { instance: JsonTree, addresses: AddressesView },
    DryRun { domain: Seq<char>, subnet_id: Seq<char>, image: JsonTree },
    GaveUp,
    Refused(ErrorView),
    Unexpected(ErrorView),
    NotRunning(ErrorView),
    Running { instance_id: Seq<char>, addresses: AddressesView },
}

impl View for Outcome {
    type V = OutcomeView;

    open spec fn view(&self) -> OutcomeView {
        match self {
            Outcome::DomainsFailed(e) => OutcomeView::DomainsFailed(e@),
            Outcome::SearchFailed(e) => OutcomeView::SearchFailed(e@),
            Outcome::SetupFailed(e) => OutcomeView::SetupFailed(e@),
            Outcome::ImageFailed(e) => OutcomeView::ImageFailed(e@),
            Outcome::Exists { instance, addresses } => OutcomeView::Exists {
                instance: instance@,
                addresses: addresses@,
            },
            Outcome::DryRun { domain, subnet_id, image } => OutcomeView::DryRun {
                domain: domain@,
                subnet_id: subnet_id@,
                image: image@,
            },
            Outcome::GaveUp => OutcomeView::GaveUp,
            Outcome::Refused(e) => OutcomeView::Refused(e@),
            Outcome::Unexpected(e) => OutcomeView::Unexpected(e@),
            Outcome::NotRunning(e) => OutcomeView::NotRunning(e@),
            Outcome::Running { instance_id, addresses } => OutcomeView::Running {
                instance_id: instance_id@,
                addresses: addresses@,
            },
        }
    }
}

/// What comes next on the way.
pub enum Step {
    /// After a rest of so many seconds, a request; its answer goes to `state`.
    Ask { state: Provisioner, after: u64, call: ApiCall },
    /// A launch, for which the clock is read.
    Launch(Launcher),
    /// A rest of so many seconds, at the end of which the clock is read.
    Rest { launcher: Launcher, seconds: u64 },
    /// After a rest of so many seconds, the end.
    End { after: u64, outcome: Outcome },
}

/// What comes next on the way.
pub enum StepView {
    Ask { state: ProvisionView, after: u64, call: CallView },
    Launch(LauncherView),
    Rest { launcher: LauncherView, seconds: u64 },
    End { after: u64, outcome: OutcomeView },
}

impl View for Step {
    type V = StepView;

    open spec fn view(&self) -> StepView {
        match self {
            Step::Ask { state, after, call } => StepView::Ask {
                state: state@,
                after: *after,
                call: call@,
            },
            Step::Launch(launcher) => StepView::Launch(launcher@),
            Step::Rest { launcher, seconds } => StepView::Rest {
                launcher: launcher@,
                seconds: *seconds,
            },
            Step::End { after, outcome } => StepView::End { after: *after, outcome: outcome@ },
        }
    }
}

/// Whether an answer is the service's error for a region without room, whatever
/// else its message says.
pub open spec fn reports_no_room(answer: AnswerView) -> bool {
    answer matches Err(error) && error.status() == 500 && error.lacks_room()
}

/// The end, at once.
pub open spec fn ended(outcome: OutcomeView) -> StepView {
    StepView::End { after: 0, outcome }
}

impl JobView {
    /// The way, at some stage.
    pub open spec fn at(self, stage: StageView) -> ProvisionView {
        ProvisionView { job: self, stage }
    }

    /// A request on the way.
    pub open spec fn ask(self, stage: StageView, after: u64, call: CallView) -> StepView {
        StepView::Ask { state: self.at(stage), after, call }
    }

    /// The search for an image, once there is a subnet.
    pub open spec fn after_subnet(
        self,
        domains: Seq<Seq<char>>,
        subnet: JsonTree,
    ) -> StepView {
        let images = ImageSearchView {
            host: self.iaas_host,
            compartment: self.compartment,
            os_name: self.os_name,
            os_version: self.os_version,
            any_version: false,
        };
        let subnet_id = text_or_empty(subnet, "id"@);
        self.ask(StageView::Image { domains, subnet_id, images }, 0, images.call())
    }

    /// The lookup of the addresses of an instance.
    pub open spec fn lookup(self, instance_id: Seq<char>) -> LookupView {
        LookupView {
            host: self.iaas_host,
            compartment: self.compartment,
            instance_id,
            stage: LookupStageView::Attachments,
        }
    }

    /// What is launched.
    pub open spec fn plan(self, attempt: AttemptView) -> PlanView {
        PlanView {
            compartment: self.compartment,
            image_id: attempt.image_id,
            subnet_id: attempt.subnet_id,
            ssh_pub_key: self.ssh_pub_key,
            display_name: self.display_name,
            ocpus: self.ocpus,
            memory_gb: self.memory_gb,
            boot_volume_gb: self.boot_volume_gb,
            assign_public_ip: self.assign_public_ip,
        }
    }

    /// Before the first try.
    pub open spec fn first_retry(self) -> Retry {
        Retry {
            initial: self.initial_backoff,
            max: self.max_backoff,
            limit: self.max_retries,
            tries: 0,
            backoff: self.initial_backoff,
        }
    }

    /// After the question for the domains: the networks are searched.
    pub open spec fn next_domains(self, answer: AnswerView) -> StepView {
        match domains_of(answer) {
            Err(error) => ended(OutcomeView::DomainsFailed(error)),
            Ok(domains) => {
                let search = SearchView {
                    host: self.iaas_host,
                    compartment: self.compartment,
                    stage: SearchStageView::Vcns,
                };
                self.ask(
                    StageView::Search { domains, search },
                    0,
                    vcns_view(self.iaas_host, self.compartment),
                )
            },
        }
    }

    /// On the search for a network: where there is none, one is made.
    pub open spec fn next_search(
        self,
        domains: Seq<Seq<char>>,
        search: SearchView,
        answer: AnswerView,
    ) -> StepView {
        match search.next(answer) {
            TurnView::Go { state, after, call } => self.ask(
                StageView::Search { domains, search: state },
                after,
                call,
            ),
            TurnView::Stop { after, error } => StepView::End {
                after,
                outcome: OutcomeView::SearchFailed(error),
            },
            TurnView::Done(FoundView::Network { subnet, .. }) => self.after_subnet(
                domains,
                subnet,
            ),
            TurnView::Done(FoundView::Nothing) => {
                let setup = SetupView {
                    host: self.iaas_host,
                    compartment: self.compartment,
                    vcn_cidr: self.vcn_cidr,
                    subnet_cidr: self.subnet_cidr,
                    stage: SetupStageView::FindVcn,
                };
                self.ask(
                    StageView::Setup { domains, setup },
                    0,
                    named_vcn_view(self.iaas_host, self.compartment),
                )
            },
        }
    }

    /// While a network is made.
    pub open spec fn next_setup(
        self,
        domains: Seq<Seq<char>>,
        setup: SetupView,
        answer: AnswerView,
    ) -> StepView {
        match setup.next(answer) {
            TurnView::Go { state, after, call } => self.ask(
                StageView::Setup { domains, setup: state },
                after,
                call,
            ),
            TurnView::Stop { after, error } => StepView::End {
                after,
                outcome: OutcomeView::SetupFailed(error),
            },
            TurnView::Done(subnet) => self.after_subnet(domains, subnet),
        }
    }

    /// On the search for an image: once there is one, instances of the wanted
    /// name are asked for.
    pub open spec fn next_image(
        self,
        domains: Seq<Seq<char>>,
        subnet_id: Seq<char>,
        images: ImageSearchView,
        answer: AnswerView,
    ) -> StepView {
        match images.next(answer) {
            TurnView::Go { state, after, call } => self.ask(
                StageView::Image { domains, subnet_id, images: state },
                after,
                call,
            ),
            TurnView::Stop { after, error } => StepView::End {
                after,
                outcome: OutcomeView::ImageFailed(error),
            },
            TurnView::Done(image) => self.ask(
                StageView::Existing { domains, subnet_id, image },
                0,
                instances_view(self.iaas_host, self.compartment, self.display_name),
            ),
        }
    }

    /// After the question for instances of the wanted name. Where it brings no
    /// live one, also for an error, one is launched, unless nothing is to be.
    pub open spec fn next_existing(
        self,
        domains: Seq<Seq<char>>,
        subnet_id: Seq<char>,
        image: JsonTree,
        answer: AnswerView,
    ) -> StepView {
        match live_instance(answer) {
            Ok(Some(instance)) => {
                let lookup = self.lookup(text_or_empty(instance, "id"@));
                self.ask(StageView::ExistingAddresses { instance, lookup }, 0, lookup.call())
            },
            _ => if self.dry_run {
                ended(OutcomeView::DryRun { domain: domain_for(domains, 0), subnet_id, image })
            } else {
                let image_id = text_or_empty(image, "id"@);
                self.try_on(
                    AttemptView { domains, subnet_id, image_id, retry: self.first_retry() },
                )
            },
        }
    }

    /// Another try, if there may be one.
    pub open spec fn try_on(self, attempt: AttemptView) -> StepView {
        if attempt.retry.may_try() {
            StepView::Launch(LauncherView { job: self, attempt })
        } else {
            ended(OutcomeView::GaveUp)
        }
    }

    /// While the addresses of an instance that was there before are looked up.
    pub open spec fn next_existing_addresses(
        self,
        instance: JsonTree,
        lookup: LookupView,
        answer: AnswerView,
    ) -> StepView {
        match lookup.next(answer) {
            TurnView::Go { state, after, call } => self.ask(
                StageView::ExistingAddresses { instance, lookup: state },
                after,
                call,
            ),
            TurnView::Done(addresses) => ended(OutcomeView::Exists { instance, addresses }),
            TurnView::Stop { .. } => ended(
                OutcomeView::Exists { instance, addresses: unknown() },
            ),
        }
    }

    /// After a launch.
    pub open spec fn next_launch(self, attempt: AttemptView, answer: AnswerView) -> StepView {
        match answer {
            Ok(instance) => {
                let instance_id = text_or_empty(instance, "id"@);
                let wait = RunningWaitView { host: self.iaas_host, instance_id };
                self.ask(StageView::Running { instance_id, wait }, 0, wait.call())
            },
            Err(error) => match attempt.retry.after_try(error) {
                Verdict::Refused => ended(OutcomeView::Refused(error)),
                Verdict::Unexpected => ended(OutcomeView::Unexpected(error)),
                Verdict::Rest { retry, seconds } => StepView::Rest {
                    launcher: LauncherView {
                        job: self,
                        attempt: AttemptView { retry, ..attempt },
                    },
                    seconds,
                },
            },
        }
    }

    /// While an instance is waited for.
    pub open spec fn next_running(
        self,
        instance_id: Seq<char>,
        wait: RunningWaitView,
        answer: AnswerView,
    ) -> StepView {
        match wait.next(answer) {
            TurnView::Go { state, after, call } => self.ask(
                StageView::Running { instance_id, wait: state },
                after,
                call,
            ),
            TurnView::Stop { after, error } => StepView::End {
                after,
                outcome: OutcomeView::NotRunning(error),
            },
            TurnView::Done(_) => {
                let lookup = self.lookup(instance_id);
                self.ask(StageView::Addresses { instance_id, lookup }, 0, lookup.call())
            },
        }
    }

    /// While the addresses of the instance are looked up.
    pub open spec fn next_addresses(
        self,
        instance_id: Seq<char>,
        lookup: LookupView,
        answer: AnswerView,
    ) -> StepView {
        match lookup.next(answer) {
            TurnView::Go { state, after, call } => self.ask(
                StageView::Addresses { instance_id, lookup: state },
                after,
                call,
            ),
            TurnView::Done(addresses) => ended(OutcomeView::Running { instance_id, addresses }),
            TurnView::Stop { .. } => ended(
                OutcomeView::Running { instance_id, addresses: unknown() },
            ),
        }
    }
}

impl ProvisionView {
    /// What an answer comes to.
    pub open spec fn next(self, answer: AnswerView) -> StepView {
        let job = self.job;
        match self.stage {
            StageView::Domains => job.next_domains(answer),
            StageView::Search { domains, search } => job.next_search(domains, search, answer),
            StageView::Setup { domains, setup } => job.next_setup(domains, setup, answer),
            StageView::Image { domains, subnet_id, images } => job.next_image(
                domains,
                subnet_id,
                images,
                answer,
            ),
            StageView::Existing { domains, subnet_id, image } => job.next_existing(
                domains,
                subnet_id,
                image,
                answer,
            ),
            StageView::ExistingAddresses { instance, lookup } => job.next_existing_addresses(
                instance,
                lookup,
                answer,
            ),
            StageView::Launch { attempt } => job.next_launch(attempt, answer),
            StageView::Running { instance_id, wait } => job.next_running(
                instance_id,
                wait,
                answer,
            ),
            StageView::Addresses { instance_id, lookup } => job.next_addresses(
                instance_id,
                lookup,
                answer,
            ),
        }
    }
}

impl LauncherView {
    /// The request for an instance, where the clock stands at `clock` nanoseconds
    /// since 1970.
    pub open spec fn call(self, clock: nat) -> CallView {
        launch_view(
            self.job.iaas_host,
            self.job.plan(self.attempt),
            domain_for(self.attempt.domains, self.attempt.retry.tries),
            clock,
        )
    }

    /// After a rest.
    pub open spec fn after_rest(self, nanos: u32) -> StepView {
        self.job.try_on(
            AttemptView { retry: self.attempt.retry.after_rest(nanos), ..self.attempt },
        )
    }
}

impl Job {
    fn after_subnet(self, domains: Domains, subnet: Json) -> (step: Step)
        ensures
            step@ == self@.after_subnet(domains@, subnet@),
    {
        let subnet_id: String = get_str_or_empty(&subnet, "id");
        let (images, call) = ImageSearch::start(
            self.iaas_host.as_str(),
            self.compartment.as_str(),
            self.os_name.as_str(),
            self.os_version.as_str(),
        );
        let stage: Stage = Stage::Image { domains, subnet_id, images };
        Step::Ask { state: Provisioner { job: self, stage }, after: 0, call }
    }

    fn lookup(&self, instance_id: &str) -> (begun: (AddressLookup, ApiCall))
        ensures
            begun.0@ == self@.lookup(instance_id@),
            begun.1@ == begun.0@.call(),
    {
        AddressLookup::start(self.iaas_host.as_str(), self.compartment.as_str(), instance_id)
    }

    fn plan(&self, attempt: &Attempt) -> (plan: LaunchPlan)
        ensures
            plan@ == self@.plan(attempt@),
    {
        LaunchPlan {
            compartment: self.compartment.clone(),
            image_id: attempt.image_id.clone(),
            subnet_id: attempt.subnet_id.clone(),
            ssh_pub_key: self.ssh_pub_key.clone(),
            display_name: self.display_name.clone(),
            ocpus: copied(&self.ocpus),
            memory_gb: copied(&self.memory_gb),
            boot_volume_gb: self.boot_volume_gb,
            assign_public_ip: self.assign_public_ip,
        }
    }

    fn take_domains(self, answer: Answer) -> (step: Step)
        ensures
            step@ == self@.next_domains(answer_view(answer)),
    {
        let names: Vec<String> = match list_availability_domains(answer) {
            Ok(names) => names,
            Err(error) => return Step::End { after: 0, outcome: Outcome::DomainsFailed(error) },
        };
        let (search, call) = NetworkSearch::start(
            self.iaas_host.as_str(),
            self.compartment.as_str(),
        );
        let stage: Stage = Stage::Search { domains: Domains::new(names), search };
        Step::Ask { state: Provisioner { job: self, stage }, after: 0, call }
    }

    fn take_search(self, domains: Domains, search: NetworkSearch, answer: Answer) -> (step: Step)
        ensures
            step@ == self@.next_search(domains@, search@, answer_view(answer)),
    {
        match search.find_existing_network(answer) {
            Turn::Go { state, after, call } => {
                let stage: Stage = Stage::Search { domains, search: state };
                Step::Ask { state: Provisioner { job: self, stage }, after, call }
            },
            Turn::Stop { after, error } => Step::End {
                after,
                outcome: Outcome::SearchFailed(error),
            },
            Turn::Done(Found::Network { subnet, .. }) => self.after_subnet(domains, subnet),
            Turn::Done(Found::Nothing) => {
                let (setup, call) = NetworkSetup::start(
                    self.iaas_host.as_str(),
                    self.compartment.as_str(),
                    self.vcn_cidr.as_str(),
                    self.subnet_cidr.as_str(),
                );
                let stage: Stage = Stage::Setup { domains, setup };
                Step::Ask { state: Provisioner { job: self, stage }, after: 0, call }
            },
        }
    }

    fn take_setup(self, domains: Domains, setup: NetworkSetup, answer: Answer) -> (step: Step)
        ensures
            step@ == self@.next_setup(domains@, setup@, answer_view(answer)),
    {
        match setup.create_network(answer) {
            Turn::Go { state, after, call } => {
                let stage: Stage = Stage::Setup { domains, setup: state };
                Step::Ask { state: Provisioner { job: self, stage }, after, call }
            },
            Turn::Stop { after, error } => Step::End {
                after,
                outcome: Outcome::SetupFailed(error),
            },
            Turn::Done(subnet) => self.after_subnet(domains, subnet),
        }
    }

    fn take_image(
        self,
        domains: Domains,
        subnet_id: String,
        images: ImageSearch,
        answer: Answer,
    ) -> (step: Step)
        ensures
            step@ == self@.next_image(domains@, subnet_id@, images@, answer_view(answer)),
    {
        match images.get_latest_image(answer) {
            Turn::Go { state, after, call } => {
                let stage: Stage = Stage::Image { domains, subnet_id, images: state };
                Step::Ask { state: Provisioner { job: self, stage }, after, call }
            },
            Turn::Stop { after, error } => Step::End {
                after,
                outcome: Outcome::ImageFailed(error),
            },
            Turn::Done(image) => {
                let call: ApiCall = instances_call(
                    self.iaas_host.as_str(),
                    self.compartment.as_str(),
                    self.display_name.as_str(),
                );
                let stage: Stage = Stage::Existing { domains, subnet_id, image };
                Step::Ask { state: Provisioner { job: self, stage }, after: 0, call }
            },
        }
    }

    fn take_existing(
        self,
        domains: Domains,
        subnet_id: String,
        image: Json,
        answer: Answer,
    ) -> (step: Step)
        ensures
            step@ == self@.next_existing(domains@, subnet_id@, image@, answer_view(answer)),
    {
        match check_existing_instance(answer) {
            Ok(Some(instance)) => {
                let instance_id: String = get_str_or_empty(&instance, "id");
                let (lookup, call) = self.lookup(instance_id.as_str());
                let stage: Stage = Stage::ExistingAddresses { instance, lookup };
                Step::Ask { state: Provisioner { job: self, stage }, after: 0, call }
            },
            _ => {
                if self.dry_run {
                    let domain: String = domains.turn(0);
                    let outcome: Outcome = Outcome::DryRun { domain, subnet_id, image };
                    return Step::End { after: 0, outcome };
                }
                let image_id: String = get_str_or_empty(&image, "id");
                let retry: Retry = Retry::start(
                    self.initial_backoff,
                    self.max_backoff,
                    self.max_retries,
                );
                self.try_on(Attempt { domains, subnet_id, image_id, retry })
            },
        }
    }

    fn try_on(self, attempt: Attempt) -> (step: Step)
        ensures
            step@ == self@.try_on(attempt@),
    {
        if attempt.retry.may_go_on() {
            Step::Launch(Launcher { job: self, attempt })
        } else {
            Step::End { after: 0, outcome: Outcome::GaveUp }
        }
    }

    fn take_existing_addresses(
        self,
        instance: Json,
        lookup: AddressLookup,
        answer: Answer,
    ) -> (step: Step)
        ensures
            step@ == self@.next_existing_addresses(instance@, lookup@, answer_view(answer)),
    {
        match lookup.get_instance_ip(answer) {
            Turn::Go { state, after, call } => {
                let stage: Stage = Stage::ExistingAddresses { instance, lookup: state };
                Step::Ask { state: Provisioner { job: self, stage }, after, call }
            },
            Turn::Done(addresses) => Step::End {
                after: 0,
                outcome: Outcome::Exists { instance, addresses },
            },
            Turn::Stop { .. } => Step::End {
                after: 0,
                outcome: Outcome::Exists { instance, addresses: Addresses::unknown() },
            },
        }
    }

    fn take_launch(self, attempt: Attempt, answer: Answer) -> (step: Step)
        ensures
            step@ == self@.next_launch(attempt@, answer_view(answer)),
            reports_no_room(answer_view(answer)) ==> step is Rest,
    {
        match answer {
            Ok(instance) => {
                let instance_id: String = get_str_or_empty(&instance, "id");
                let (wait, call) = RunningWait::start(
                    self.iaas_host.as_str(),
                    instance_id.as_str(),
                );
                let stage: Stage = Stage::Running { instance_id, wait };
                Step::Ask { state: Provisioner { job: self, stage }, after: 0, call }
            },
            Err(error) => match attempt.retry.judge(&error) {
                Verdict::Refused => Step::End { after: 0, outcome: Outcome::Refused(error) },
                Verdict::Unexpected => Step::End {
                    after: 0,
                    outcome: Outcome::Unexpected(error),
                },
                Verdict::Rest { retry, seconds } => {
                    let attempt: Attempt = Attempt {
                        domains: attempt.domains,
                        subnet_id: attempt.subnet_id,
                        image_id: attempt.image_id,
                        retry,
                    };
                    Step::Rest { launcher: Launcher { job: self, attempt }, seconds }
                },
            },
        }
    }

    fn take_running(self, instance_id: String, wait: RunningWait, answer: Answer) -> (step: Step)
        ensures
            step@ == self@.next_running(instance_id@, wait@, answer_view(answer)),
    {
        match wait.wait_for_running(answer) {
            Turn::Go { state, after, call } => {
                let stage: Stage = Stage::Running { instance_id, wait: state };
                Step::Ask { state: Provisioner { job: self, stage }, after, call }
            },
            Turn::Stop { after, error } => Step::End {
                after,
                outcome: Outcome::NotRunning(error),
            },
            Turn::Done(_) => {
                let (lookup, call) = self.lookup(instance_id.as_str());
                let stage: Stage = Stage::Addresses { instance_id, lookup };
                Step::Ask { state: Provisioner { job: self, stage }, after: 0, call }
            },
        }
    }

    fn take_addresses(
        self,
        instance_id: String,
        lookup: AddressLookup,
        answer: Answer,
    ) -> (step: Step)
        ensures
            step@ == self@.next_addresses(instance_id@, lookup@, answer_view(answer)),
    {
        match lookup.get_instance_ip(answer) {
            Turn::Go { state, after, call } => {
                let stage: Stage = Stage::Addresses { instance_id, lookup: state };
                Step::Ask { state: Provisioner { job: self, stage }, after, call }
            },
            Turn::Done(addresses) => Step::End {
                after: 0,
                outcome: Outcome::Running { instance_id, addresses },
            },
            Turn::Stop { .. } => Step::End {
                after: 0,
                outcome: Outcome::Running { instance_id, addresses: Addresses::unknown() },
            },
        }
    }
}

fn copied(n: &Option<serde_json::Number>) -> (copy: Option<serde_json::Number>)
    ensures
        copy == *n,
{
    match n {
        Some(n) => Some(n.clone()),
        None => None,
    }
}

impl Provisioner {
    /// Starts on the way: the availability domains are asked for.
    pub fn start(job: Job) -> (begun: (Provisioner, ApiCall))
        ensures
            begun.0@ == job@.at(StageView::Domains),
            begun.1@ == domains_view(job@.identity_host, job@.compartment),
    {
        let call: ApiCall = domains_call(job.identity_host.as_str(), job.compartment.as_str());
        (Provisioner { job, stage: Stage::Domains }, call)
    }

    /// Takes an answer.
    pub fn take(self, answer: Answer) -> (step: Step)
        ensures
            step@ == self@.next(answer_view(answer)),
            self@.stage is Launch && reports_no_room(answer_view(answer)) ==> step is Rest,
    {
        let job: Job = self.job;
        match self.stage {
            Stage::Domains => job.take_domains(answer),
            Stage::Search { domains, search } => job.take_search(domains, search, answer),
            Stage::Setup { domains, setup } => job.take_setup(domains, setup, answer),
            Stage::Image { domains, subnet_id, images } => job.take_image(
                domains,
                subnet_id,
                images,
                answer,
            ),
            Stage::Existing { domains, subnet_id, image } => job.take_existing(
                domains,
                subnet_id,
                image,
                answer,
            ),
            Stage::ExistingAddresses { instance, lookup } => job.take_existing_addresses(
                instance,
                lookup,
                answer,
            ),
            Stage::Launch { attempt } => job.take_launch(attempt, answer),
            Stage::Running { instance_id, wait } => job.take_running(instance_id, wait, answer),
            Stage::Addresses { instance_id, lookup } => job.take_addresses(
                instance_id,
                lookup,
                answer,
            ),
        }
    }
}

impl Launcher {
    /// The availability domain that the next try is made in.
    pub fn domain(&self) -> (name: String)
        ensures
            name@ == domain_for(self@.attempt.domains, self@.attempt.retry.tries),
    {
        self.attempt.domains.turn(self.attempt.retry.tries)
    }

    /// Makes a try, where the clock stands at `clock` nanoseconds since 1970.
    pub fn launch(self, clock: u128) -> (begun: (Provisioner, ApiCall))
        ensures
            begun.0@ == self@.job.at(StageView::Launch { attempt: self@.attempt }),
            begun.1@ == self@.call(clock as nat),
    {
        let domain: String = self.domain();
        let plan: LaunchPlan = self.job.plan(&self.attempt);
        let call: ApiCall = launch_instance(
            self.job.iaas_host.as_str(),
            &plan,
            domain.as_str(),
            clock,
        );
        (Provisioner { job: self.job, stage: Stage::Launch { attempt: self.attempt } }, call)
    }

    /// Goes on after a rest, at the end of which the clock stood at `nanos`
    /// nanoseconds past a full second.
    pub fn wake(self, nanos: u32) -> (step: Step)
        ensures
            step@ == self@.after_rest(nanos),
    {
        let attempt: Attempt = Attempt {
            domains: self.attempt.domains,
            subnet_id: self.attempt.subnet_id,
            image_id: self.attempt.image_id,
            retry: self.attempt.retry.wake(nanos),
        };
        self.job.try_on(attempt)
    }
}

} // verus!
