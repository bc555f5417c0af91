//! What holds of the whole way to an instance, whatever the service answers.

use vstd::prelude::*;

use crate::error::{capacity_notice, lowercase, ErrorView};
use crate::flow::{asks, hands, AnswerView, TurnView};
use crate::json::{items_of, text_field, text_or_empty, JsonTree};
use crate::network::{state_is, FoundView, SearchStageView, SearchView};
use crate::network_setup::{SetupStageView, SetupView};
use crate::provision::{
    domain_for, AttemptView, JobView, LauncherView, OutcomeView, ProvisionView, StageView, StepView,
};
use crate::request::CallView;
use crate::resources::{
    domains_of, domains_view, inner_field, is_live, law_domains_need_a_name,
    law_every_domain_is_a_name, law_launch_carries_the_plan, law_live_instance_is_the_first,
    live_instance, names_of, ImageSearchView, LookupStageView, LookupView, RunningWaitView,
};
use crate::retry::{as_seconds, law_passing_faults_are_rested_on, Retry};
use crate::text::{contains, hex, signed_decimal};

verus! {

/// What happens on the way.
pub enum Event {
    /// An answer came.
    Answered(AnswerView),
    /// A launch was sent, when the clock stood at so many nanoseconds since 1970.
    Launched(nat),
    /// A rest ended, when the clock stood at so many nanoseconds past a full
    /// second.
    Rested(u32),
}

/// The first step.
pub open spec fn first_step(job: JobView) -> StepView {
    job.ask(StageView::Domains, 0, domains_view(job.identity_host, job.compartment))
}

/// The step that follows; the same one where the event is not of its sort.
pub open spec fn follow(step: StepView, event: Event) -> StepView {
    match (step, event) {
        (StepView::Ask { state, .. }, Event::Answered(answer)) => state.next(answer),
        (StepView::Launch(launcher), Event::Launched(clock)) => launcher.job.ask(
            StageView::Launch { attempt: launcher.attempt },
            0,
            launcher.call(clock),
        ),
        (StepView::Rest { launcher, .. }, Event::Rested(nanos)) => launcher.after_rest(nanos),
        _ => step,
    }
}

/// The step that some events lead to.
pub open spec fn course(step: StepView, events: Seq<Event>) -> StepView
    decreases events.len(),
{
    if events.len() == 0 {
        step
    } else {
        follow(course(step, events.drop_last()), events.last())
    }
}

/// How many launches were sent.
pub open spec fn launches(step: StepView, events: Seq<Event>) -> nat
    decreases events.len(),
{
    if events.len() == 0 {
        0
    } else {
        launches(step, events.drop_last()) + if course(step, events.drop_last()) is Launch
            && events.last() is Launched {
            1nat
        } else {
            0nat
        }
    }
}

/// Whether the tries go as the job has it.
pub open spec fn keeps(job: JobView, retry: Retry) -> bool {
    &&& retry.initial == job.initial_backoff
    &&& retry.max == job.max_backoff
    &&& retry.limit == job.max_retries
    &&& 0 <= retry.initial <= retry.max ==> retry.initial <= retry.backoff <= retry.max
}

/// Whether as many launches were sent as there may be.
pub open spec fn within_limit(job: JobView, sent: int) -> bool {
    job.max_retries > 0 ==> sent <= job.max_retries
}

/// Whether a try, of which `sent` launches were sent before, is one that may be.
pub open spec fn tries_soundly(job: JobView, retry: Retry, sent: int) -> bool {
    &&& !job.dry_run
    &&& keeps(job, retry)
    &&& job.max_retries > 0 ==> retry.tries == sent && sent < job.max_retries
}

/// What holds at each step, after `sent` launches.
pub open spec fn sound(job: JobView, step: StepView, sent: int) -> bool {
    match step {
        StepView::Ask { state, .. } => {
            &&& state.job == job
            &&& match state.stage {
                StageView::Launch { attempt } => tries_soundly(job, attempt.retry, sent - 1),
                StageView::Running { .. } => !job.dry_run && within_limit(job, sent),
                StageView::Addresses { .. } => !job.dry_run && within_limit(job, sent),
                _ => sent == 0,
            }
        },
        StepView::Launch(launcher) => {
            &&& launcher.job == job
            &&& tries_soundly(job, launcher.attempt.retry, sent)
        },
        StepView::Rest { launcher, seconds } => {
            &&& launcher.job == job
            &&& tries_soundly(job, launcher.attempt.retry, sent - 1)
            &&& seconds == as_seconds(launcher.attempt.retry.backoff as int)
        },
        StepView::End { outcome, .. } => {
            &&& within_limit(job, sent)
            &&& job.dry_run ==> sent == 0 && (outcome is DomainsFailed || outcome is SearchFailed
                || outcome is SetupFailed || outcome is ImageFailed || outcome is Exists
                || outcome is DryRun)
        },
    }
}

proof fn lemma_sound_step(job: JobView, step: StepView, sent: int, event: Event)
    requires
        sound(job, step, sent),
        sent >= 0,
    ensures
        sound(
            job,
            follow(step, event),
            if step is Launch && event is Launched {
                sent + 1
            } else {
                sent
            },
        ),
{
}

proof fn lemma_sound(job: JobView, events: Seq<Event>)
    ensures
        sound(job, course(first_step(job), events), launches(first_step(job), events) as int),
    decreases events.len(),
{
    if events.len() > 0 {
        lemma_sound(job, events.drop_last());
        lemma_sound_step(
            job,
            course(first_step(job), events.drop_last()),
            launches(first_step(job), events.drop_last()) as int,
            events.last(),
        );
    }
}

/// On a dry run nothing is ever launched: it ends with what was found, or with
/// what could not be.
pub proof fn law_dry_run_launches_nothing(job: JobView, events: Seq<Event>)
    requires
        job.dry_run,
    ensures
        launches(first_step(job), events) == 0,
        !(course(first_step(job), events) is Launch),
        !(course(first_step(job), events) is Rest),
        course(first_step(job), events) matches StepView::End { outcome, .. } ==> outcome
            is DomainsFailed || outcome is SearchFailed || outcome is SetupFailed || outcome
            is ImageFailed || outcome is Exists || outcome is DryRun,
{
    lemma_sound(job, events);
}

/// Where the number of tries is limited, no more launches are sent.
pub proof fn law_launches_are_limited(job: JobView, events: Seq<Event>)
    requires
        job.max_retries > 0,
    ensures
        launches(first_step(job), events) <= job.max_retries,
{
    lemma_sound(job, events);
}

/// Every rest between two launches is at least as long as the first and at most
/// as long as the longest, where the first is not longer than the longest.
pub proof fn law_rests_stay_in_bounds(job: JobView, events: Seq<Event>)
    requires
        0 <= job.initial_backoff <= job.max_backoff,
        course(first_step(job), events) is Rest,
    ensures
        job.initial_backoff <= course(first_step(job), events)->seconds <= job.max_backoff,
{
    lemma_sound(job, events);
}

/// What is wanted never changes on the way.
pub proof fn law_job_is_kept(job: JobView, events: Seq<Event>)
    ensures
        match course(first_step(job), events) {
            StepView::Ask { state, .. } => state.job == job,
            StepView::Launch(launcher) => launcher.job == job,
            StepView::Rest { launcher, .. } => launcher.job == job,
            StepView::End { .. } => true,
        },
{
    lemma_sound(job, events);
}

/// A region without room never ends the way: the launch is followed by a rest,
/// and the rest by another launch, unless the number of tries is limited. The
/// message is taken in lower case; of any message that mentions the notice,
/// `Provisioner::take` ensures the rest.
pub proof fn law_capacity_keeps_trying(
    launcher: LauncherView,
    clock: nat,
    message: Seq<char>,
    nanos: u32,
)
    requires
        contains(lowercase(message), capacity_notice()),
    ensures
        ({
            let sent = follow(StepView::Launch(launcher), Event::Launched(clock));
            let refusal = ErrorView::Http { status: 500, message };
            let rest = follow(sent, Event::Answered(Err(refusal)));
            let after = follow(rest, Event::Rested(nanos));
            &&& rest is Rest
            &&& rest->seconds == as_seconds(launcher.attempt.retry.backoff as int)
            &&& launcher.attempt.retry.limit <= 0 ==> after is Launch
        }),
{
}

/// Where a live instance of the wanted name is there, none is launched: the way
/// ends with that instance.
pub proof fn law_live_instance_is_kept(
    job: JobView,
    domains: Seq<Seq<char>>,
    subnet_id: Seq<char>,
    image: JsonTree,
    answer: AnswerView,
    events: Seq<Event>,
)
    requires
        live_instance(answer) is Ok,
        live_instance(answer)->Ok_0 is Some,
    ensures
        ({
            let asked = job.at(StageView::Existing { domains, subnet_id, image });
            let step = course(asked.next(answer), events);
            &&& launches(asked.next(answer), events) == 0
            &&& match step {
                StepView::Ask { state, .. } => state.stage is ExistingAddresses
                    && state.stage->ExistingAddresses_instance == live_instance(answer)->Ok_0->0,
                StepView::End { outcome, .. } => outcome is Exists && outcome->instance
                    == live_instance(answer)->Ok_0->0,
                _ => false,
            }
        }),
    decreases events.len(),
{
    if events.len() > 0 {
        law_live_instance_is_kept(
            job,
            domains,
            subnet_id,
            image,
            answer,
            events.drop_last(),
        );
    }
}

/// Among as many tries in a row as there are availability domains, each domain
/// has its turn.
pub proof fn law_every_domain_has_its_turn(domains: Seq<Seq<char>>, first: u64, at: int)
    requires
        0 <= at < domains.len(),
        first + domains.len() <= u64::MAX,
    ensures
        exists|tries: u64|
            first <= tries < first + domains.len() && #[trigger] domain_for(domains, tries)
                == domains[at],
{
    let n = domains.len() as int;
    let gap = (at - first as int) % n;
    let tries = (first + gap) as u64;
    assert(tries as int % n == at) by (nonlinear_arith)
        requires
            n > 0,
            0 <= at < n,
            gap == (at - first as int) % n,
            tries as int == first + gap,
    {
        let q = (at - first as int) / n;
        assert(at - first == q * n + gap);
        assert(tries as int == at + (-q) * n);
        vstd::arithmetic::div_mod::lemma_mod_multiples_vanish(-q, at, n);
        assert(n * (-q) == (-q) * n);
        vstd::arithmetic::div_mod::lemma_small_mod(at as nat, n as nat);
    }
    assert(domain_for(domains, tries) == domains[at]);
}

/// After each launch that failed, the next one goes to the next domain.
pub proof fn law_domains_take_turns(launcher: LauncherView, nanos: u32)
    requires
        launcher.after_rest(nanos) is Launch,
        launcher.attempt.retry.tries < u64::MAX,
    ensures
        ({
            let next = launcher.after_rest(nanos)->Launch_0;
            &&& next.attempt.domains == launcher.attempt.domains
            &&& next.attempt.retry.tries == launcher.attempt.retry.tries + 1
        }),
{
}

/// Whether a request makes an instance.
pub open spec fn makes_instance(call: CallView) -> bool {
    call.method == "POST"@ && call.path == "/20160918/instances"@
}

/// An instance is made by nothing but a launch: no request that follows an
/// answer makes one.
pub proof fn law_only_launches_make_instances(state: ProvisionView, answer: AnswerView)
    ensures
        state.next(answer) matches StepView::Ask { call, .. } ==> !makes_instance(call),
{
    reveal_strlit("POST");
    reveal_strlit("GET");
    reveal_strlit("PUT");
    reveal_strlit("/20160918/instances");
    reveal_strlit("/20160918/vcns");
    reveal_strlit("/20160918/internetGateways");
    reveal_strlit("/20160918/subnets");
    assert("POST"@.len() != "GET"@.len());
    assert("POST"@.len() != "PUT"@.len());
    assert("/20160918/instances"@.len() == 19);
    assert("/20160918/vcns"@.len() == 14);
    assert("/20160918/internetGateways"@.len() == 26);
    assert("/20160918/subnets"@.len() == 17);
}

/// A network is made only where the search for one brought nothing.
pub proof fn law_network_is_made_where_none_is(state: ProvisionView, answer: AnswerView)
    requires
        !(state.stage is Setup),
        state.next(answer) is Ask,
        state.next(answer)->state.stage is Setup,
    ensures
        state.stage is Search,
        state.stage->search.next(answer) is Done,
        state.stage->search.next(answer)->Done_0 is Nothing,
{
}

/// The way ends with a running instance only after the service said that it
/// runs.
pub proof fn law_success_means_running(state: ProvisionView, answer: AnswerView)
    ensures
        state.next(answer) matches StepView::End { outcome, .. } ==> (outcome is Running
            ==> state.stage is Addresses),
        !(state.stage is Addresses) && state.next(answer) is Ask
            && state.next(answer)->state.stage is Addresses ==> state.stage is Running
            && answer is Ok && state_is(answer->Ok_0, "RUNNING"@),
{
}

/// Once an instance that was launched runs, the way can only end with that
/// instance, and nothing more is launched.
pub proof fn law_running_instance_is_the_end(
    job: JobView,
    instance_id: Seq<char>,
    wait: RunningWaitView,
    tree: JsonTree,
    events: Seq<Event>,
)
    requires
        state_is(tree, "RUNNING"@),
    ensures
        ({
            let waiting = job.at(StageView::Running { instance_id, wait });
            let step = waiting.next(Ok(tree));
            &&& launches(step, events) == 0
            &&& match course(step, events) {
                StepView::Ask { state, .. } => state.stage is Addresses
                    && state.stage->Addresses_instance_id == instance_id,
                StepView::End { outcome, .. } => outcome is Running
                    && outcome->Running_instance_id == instance_id,
                _ => false,
            }
        }),
    decreases events.len(),
{
    if events.len() > 0 {
        law_running_instance_is_the_end(job, instance_id, wait, tree, events.drop_last());
    }
}

/// A launch that is answered with an instance is followed by a wait for it, and
/// one that fails by a rest exactly where the error may pass and is not known to
/// stay; any other error ends the way, and the end says which error it was.
pub proof fn law_launches_are_answered_for(
    job: JobView,
    attempt: AttemptView,
    answer: AnswerView,
)
    ensures
        ({
            let step = job.at(StageView::Launch { attempt }).next(answer);
            match answer {
                Ok(instance) => step is Ask && step->state.stage is Running
                    && step->state.stage->Running_instance_id == text_or_empty(instance, "id"@),
                Err(error) => if error.non_retryable() {
                    step is End && step->outcome == OutcomeView::Refused(error)
                } else if error.retryable() {
                    step is Rest
                } else {
                    step is End && step->outcome == OutcomeView::Unexpected(error)
                },
            }
        }),
{
}

/// Whether a step is a request, made at once, that is answered to `stage` for the
/// same job.
pub open spec fn goes_to(step: StepView, job: JobView, stage: StageView) -> bool {
    &&& step is Ask
    &&& step->Ask_after == 0
    &&& step->state == (ProvisionView { job, stage })
}

/// Whether a step is the end, at once, with the given outcome.
pub open spec fn ends_with(step: StepView, outcome: OutcomeView) -> bool {
    step == (StepView::End { after: 0, outcome })
}

/// The way starts with the question for the availability domains, and goes on
/// with the search for a network in the same compartment; where the domains cannot
/// be had, it ends with the error.
pub proof fn law_domains_come_first(job: JobView, answer: AnswerView)
    ensures
        goes_to(first_step(job), job, StageView::Domains),
        asks(
            first_step(job)->call,
            job.identity_host,
            "/20160918/availabilityDomains"@,
            seq![("compartmentId"@, job.compartment)],
        ),
        ({
            let step = (ProvisionView { job, stage: StageView::Domains }).next(answer);
            match domains_of(answer) {
                Err(error) => ends_with(step, OutcomeView::DomainsFailed(error)),
                Ok(domains) => {
                    let search = SearchView {
                        host: job.iaas_host,
                        compartment: job.compartment,
                        stage: SearchStageView::Vcns,
                    };
                    &&& goes_to(step, job, StageView::Search { domains, search })
                    &&& asks(
                        step->call,
                        job.iaas_host,
                        "/20160918/vcns"@,
                        seq![("compartmentId"@, job.compartment)],
                    )
                },
            }
        }),
{
}

/// Whether a step is the question for an image of the wanted system, where the
/// subnet that was found is kept by its identifier.
pub open spec fn seeks_image(
    step: StepView,
    job: JobView,
    domains: Seq<Seq<char>>,
    subnet: JsonTree,
) -> bool {
    let images = ImageSearchView {
        host: job.iaas_host,
        compartment: job.compartment,
        os_name: job.os_name,
        os_version: job.os_version,
        any_version: false,
    };
    &&& goes_to(
        step,
        job,
        StageView::Image { domains, subnet_id: text_or_empty(subnet, "id"@), images },
    )
    &&& step->call == images.call()
}

/// A network that is found is used; where none is found, one is made, of the
/// addresses that are wanted, and used. Either way an image is looked for next,
/// and an error ends the way.
pub proof fn law_network_leads_to_the_image(
    job: JobView,
    domains: Seq<Seq<char>>,
    search: SearchView,
    setup: SetupView,
    answer: AnswerView,
)
    ensures
        ({
            let step = (ProvisionView { job, stage: StageView::Search { domains, search } }).next(
                answer,
            );
            match search.next(answer) {
                TurnView::Stop { after, error } => step == (StepView::End {
                    after,
                    outcome: OutcomeView::SearchFailed(error),
                }),
                TurnView::Go { state, after, call } => step == (StepView::Ask {
                    state: ProvisionView {
                        job,
                        stage: StageView::Search { domains, search: state },
                    },
                    after,
                    call,
                }),
                TurnView::Done(FoundView::Network { subnet, .. }) => seeks_image(
                    step,
                    job,
                    domains,
                    subnet,
                ),
                TurnView::Done(FoundView::Nothing) => {
                    let begun = SetupView {
                        host: job.iaas_host,
                        compartment: job.compartment,
                        vcn_cidr: job.vcn_cidr,
                        subnet_cidr: job.subnet_cidr,
                        stage: SetupStageView::FindVcn,
                    };
                    &&& goes_to(step, job, StageView::Setup { domains, setup: begun })
                    &&& asks(
                        step->call,
                        job.iaas_host,
                        "/20160918/vcns"@,
                        seq![
                            ("compartmentId"@, job.compartment),
                            ("displayName"@, "free-arm-vcn"@),
                        ],
                    )
                },
            }
        }),
        ({
            let step = (ProvisionView { job, stage: StageView::Setup { domains, setup } }).next(
                answer,
            );
            match setup.next(answer) {
                TurnView::Stop { after, error } => step == (StepView::End {
                    after,
                    outcome: OutcomeView::SetupFailed(error),
                }),
                TurnView::Go { state, after, call } => step == (StepView::Ask {
                    state: ProvisionView { job, stage: StageView::Setup { domains, setup: state } },
                    after,
                    call,
                }),
                TurnView::Done(subnet) => seeks_image(step, job, domains, subnet),
            }
        }),
{
}

/// Once there is an image, instances of the wanted name are asked for, and the
/// domains, the subnet and the image are kept; without an image the way ends with
/// the error.
pub proof fn law_image_leads_to_the_instances(
    job: JobView,
    domains: Seq<Seq<char>>,
    subnet_id: Seq<char>,
    images: ImageSearchView,
    answer: AnswerView,
)
    ensures
        ({
            let stage = StageView::Image { domains, subnet_id, images };
            let step = (ProvisionView { job, stage }).next(answer);
            match images.next(answer) {
                TurnView::Stop { after, error } => step == (StepView::End {
                    after,
                    outcome: OutcomeView::ImageFailed(error),
                }),
                TurnView::Go { state, after, call } => step == (StepView::Ask {
                    state: ProvisionView {
                        job,
                        stage: StageView::Image { domains, subnet_id, images: state },
                    },
                    after,
                    call,
                }),
                TurnView::Done(image) => {
                    &&& goes_to(step, job, StageView::Existing { domains, subnet_id, image })
                    &&& asks(
                        step->call,
                        job.iaas_host,
                        "/20160918/instances"@,
                        seq![
                            ("compartmentId"@, job.compartment),
                            ("displayName"@, job.display_name),
                        ],
                    )
                },
            }
        }),
{
}

/// Where no live instance is found, also where the question for one fails, an
/// instance is launched at once, for the first time, from the image and in the
/// subnet and the domains that were found, with the pace of the job; on a dry run
/// the way ends with what was found instead.
pub proof fn law_launch_takes_what_was_found(
    job: JobView,
    domains: Seq<Seq<char>>,
    subnet_id: Seq<char>,
    image: JsonTree,
    answer: AnswerView,
)
    requires
        answer is Err || forall|i: int|
            0 <= i < items_of(answer->Ok_0).len() ==> !is_live(
                #[trigger] items_of(answer->Ok_0)[i],
            ),
        domains.len() > 0,
    ensures
        ({
            let stage = StageView::Existing { domains, subnet_id, image };
            let step = (ProvisionView { job, stage }).next(answer);
            &&& job.dry_run ==> ends_with(
                step,
                OutcomeView::DryRun { domain: domains[0], subnet_id, image },
            )
            &&& !job.dry_run ==> step is Launch && step->Launch_0 == (LauncherView {
                job,
                attempt: AttemptView {
                    domains,
                    subnet_id,
                    image_id: text_or_empty(image, "id"@),
                    retry: Retry {
                        initial: job.initial_backoff,
                        max: job.max_backoff,
                        limit: job.max_retries,
                        tries: 0,
                        backoff: job.initial_backoff,
                    },
                },
            })
        }),
{
    if answer is Ok {
        law_live_instance_is_the_first(answer->Ok_0);
    }
}

/// A launch asks for the instance that the job wants: from the image and in the
/// subnet that were found, in the domain whose turn it is.
pub proof fn law_launch_asks_for_what_the_job_wants(launcher: LauncherView, clock: nat)
    requires
        launcher.attempt.domains.len() > 0,
    ensures
        ({
            let job = launcher.job;
            let attempt = launcher.attempt;
            let turn = attempt.retry.tries as int % attempt.domains.len() as int;
            let call = launcher.call(clock);
            let body = call.body->0;
            &&& hands(call, "POST"@, job.iaas_host, "/20160918/instances"@)
            &&& call.headers =~= seq![("opc-retry-token"@, hex(clock))]
            &&& text_field(body, "availabilityDomain"@) == Some(attempt.domains[turn])
            &&& text_field(body, "displayName"@) == Some(job.display_name)
            &&& text_field(body, "compartmentId"@) == Some(job.compartment)
            &&& text_field(body, "shape"@) == Some("VM.Standard.A1.Flex"@)
            &&& inner_field(body, "shapeConfig"@, "ocpus"@) == Some(job.ocpus)
            &&& inner_field(body, "shapeConfig"@, "memoryInGBs"@) == Some(job.memory_gb)
            &&& inner_field(body, "sourceDetails"@, "imageId"@) == Some(
                JsonTree::Text(attempt.image_id),
            )
            &&& inner_field(body, "sourceDetails"@, "bootVolumeSizeInGBs"@) == Some(
                JsonTree::Number(signed_decimal(job.boot_volume_gb)),
            )
            &&& inner_field(body, "createVnicDetails"@, "subnetId"@) == Some(
                JsonTree::Text(attempt.subnet_id),
            )
            &&& inner_field(body, "createVnicDetails"@, "assignPublicIp"@) == Some(
                JsonTree::Bool(job.assign_public_ip),
            )
            &&& inner_field(body, "metadata"@, "ssh_authorized_keys"@) == Some(
                JsonTree::Text(job.ssh_pub_key),
            )
        }),
{
    law_launch_carries_the_plan(
        launcher.job.plan(launcher.attempt),
        domain_for(launcher.attempt.domains, launcher.attempt.retry.tries),
    );
}

/// A launch that failed and may be tried again is tried again for the same job,
/// from the same image and in the same subnet and domains, as long as there may
/// be tries; only the rest and the number of tries change. When there may be no
/// more, the way ends.
pub proof fn law_tries_are_for_the_same(
    launcher: LauncherView,
    error: ErrorView,
    nanos: u32,
)
    ensures
        ({
            let job = launcher.job;
            let attempt = launcher.attempt;
            let stage = StageView::Launch { attempt };
            let step = (ProvisionView { job, stage }).next(Err(error));
            &&& step matches StepView::Rest { launcher: rested, .. } ==> {
                &&& attempt.retry.after_try(error) is Rest
                &&& step->seconds == attempt.retry.after_try(error)->seconds
                &&& rested.job == job
                &&& rested.attempt == (AttemptView {
                    retry: attempt.retry.after_try(error)->retry,
                    ..attempt
                })
            }
            &&& !(step is Ask) && !(step is Launch)
        }),
        ({
            let retry = launcher.attempt.retry.after_rest(nanos);
            let step = launcher.after_rest(nanos);
            &&& retry.limit <= 0 || retry.tries < retry.limit ==> step == StepView::Launch(
                LauncherView {
                    job: launcher.job,
                    attempt: AttemptView { retry, ..launcher.attempt },
                },
            )
            &&& retry.limit > 0 && retry.tries >= retry.limit ==> ends_with(
                step,
                OutcomeView::GaveUp,
            )
        }),
{
}

/// An instance that was launched is waited for by its identifier; once it runs
/// its addresses are looked up, and the way ends with them. Where it does not come
/// to run, the way ends with the reason.
pub proof fn law_launched_instance_is_followed(
    job: JobView,
    attempt: AttemptView,
    instance: JsonTree,
    instance_id: Seq<char>,
    wait: RunningWaitView,
    lookup: LookupView,
    answer: AnswerView,
)
    ensures
        ({
            let id = text_or_empty(instance, "id"@);
            let stage = StageView::Launch { attempt };
            let step = (ProvisionView { job, stage }).next(Ok(instance));
            let begun = RunningWaitView { host: job.iaas_host, instance_id: id };
            &&& goes_to(step, job, StageView::Running { instance_id: id, wait: begun })
            &&& asks(step->call, job.iaas_host, "/20160918/instances/"@ + id, seq![])
        }),
        ({
            let stage = StageView::Running { instance_id, wait };
            let step = (ProvisionView { job, stage }).next(answer);
            match wait.next(answer) {
                TurnView::Stop { after, error } => step == (StepView::End {
                    after,
                    outcome: OutcomeView::NotRunning(error),
                }),
                TurnView::Go { state, after, call } => step == (StepView::Ask {
                    state: ProvisionView {
                        job,
                        stage: StageView::Running { instance_id, wait: state },
                    },
                    after,
                    call,
                }),
                TurnView::Done(_) => {
                    let begun = LookupView {
                        host: job.iaas_host,
                        compartment: job.compartment,
                        instance_id,
                        stage: LookupStageView::Attachments,
                    };
                    &&& goes_to(step, job, StageView::Addresses { instance_id, lookup: begun })
                    &&& step->call == begun.call()
                },
            }
        }),
        ({
            let stage = StageView::Addresses { instance_id, lookup };
            let step = (ProvisionView { job, stage }).next(answer);
            match lookup.next(answer) {
                TurnView::Go { state, after, call } => step == (StepView::Ask {
                    state: ProvisionView {
                        job,
                        stage: StageView::Addresses { instance_id, lookup: state },
                    },
                    after,
                    call,
                }),
                TurnView::Done(addresses) => ends_with(
                    step,
                    OutcomeView::Running { instance_id, addresses },
                ),
                TurnView::Stop { .. } => true,
            }
        }),
{
}

/// The addresses of an instance that was there before are looked up by its
/// identifier, and the way ends with it and them.
pub proof fn law_existing_instance_is_followed(
    job: JobView,
    domains: Seq<Seq<char>>,
    subnet_id: Seq<char>,
    image: JsonTree,
    tree: JsonTree,
    instance: JsonTree,
    lookup: LookupView,
    answer: AnswerView,
)
    ensures
        live_instance(Ok(tree)) == Ok::<Option<JsonTree>, ErrorView>(Some(instance)) ==> {
            let stage = StageView::Existing { domains, subnet_id, image };
            let step = (ProvisionView { job, stage }).next(Ok(tree));
            let begun = LookupView {
                host: job.iaas_host,
                compartment: job.compartment,
                instance_id: text_or_empty(instance, "id"@),
                stage: LookupStageView::Attachments,
            };
            &&& goes_to(step, job, StageView::ExistingAddresses { instance, lookup: begun })
            &&& step->call == begun.call()
        },
        ({
            let stage = StageView::ExistingAddresses { instance, lookup };
            let step = (ProvisionView { job, stage }).next(answer);
            match lookup.next(answer) {
                TurnView::Go { state, after, call } => step == (StepView::Ask {
                    state: ProvisionView {
                        job,
                        stage: StageView::ExistingAddresses { instance, lookup: state },
                    },
                    after,
                    call,
                }),
                TurnView::Done(addresses) => ends_with(
                    step,
                    OutcomeView::Exists { instance, addresses },
                ),
                TurnView::Stop { .. } => true,
            }
        }),
{
}

/// A launch that the service answers with a fault of its own is rested on where
/// the message tells of a passing fault and of no limit, however often that
/// happens.
pub proof fn law_passing_faults_never_end_the_way(
    job: JobView,
    attempt: AttemptView,
    message: Seq<char>,
)
    requires
        contains(lowercase(message), "internal"@) || contains(lowercase(message), "timeout"@)
            || contains(lowercase(message), "temporary"@),
        !contains(lowercase(message), "limitexceeded"@),
    ensures
        (ProvisionView { job, stage: StageView::Launch { attempt } }).next(
            Err(ErrorView::Http { status: 500, message }),
        ) is Rest,
{
    law_passing_faults_are_rested_on(attempt.retry, message, 500);
}

/// Every domain that a launch is made in is the name of an item that the service
/// listed.
pub proof fn law_launches_are_made_in_listed_domains(tree: JsonTree, tries: u64)
    requires
        domains_of(Ok(tree)) is Ok,
    ensures
        exists|i: int|
            0 <= i < items_of(tree).len() && text_field(#[trigger] items_of(tree)[i], "name"@)
                == Some(domain_for(domains_of(Ok(tree))->Ok_0, tries)),
{
    let names = names_of(items_of(tree));
    law_every_domain_is_a_name(items_of(tree));
    law_domains_need_a_name(tree, ErrorView::Other(Seq::empty()));
    assert(names.len() > 0);
    let at = tries as int % names.len() as int;
    assert(0 <= at < names.len());
    assert(domain_for(names, tries) == names[at]);
}

} // verus!
