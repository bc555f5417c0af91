//! What is told of the end of the way to an instance.

use vstd::prelude::*;

use crate::flow::concat;
use crate::json::{get_str_or_empty, text_or_empty, Json, JsonTree};
use crate::notify::{Notice, NoticeView};
use crate::error::ErrorView;
use crate::provision::{Outcome, OutcomeView};
use crate::resources::{Addresses, AddressesView};

verus! {

/// The address, or a word for its lack.
pub open spec fn address_or_none(address: Option<Seq<char>>) -> Seq<char> {
    match address {
        Some(a) => a,
        None => "N/A"@,
    }
}

/// What is told of an instance that was there before.
pub open spec fn existing_text(
    display_name: Seq<char>,
    instance: JsonTree,
    addresses: AddressesView,
) -> Seq<char> {
    "Instance '"@ + display_name + "' already exists (state: "@ + text_or_empty(
        instance,
        "lifecycleState"@,
    ) + "). IP: "@ + address_or_none(addresses.public)
}

/// The lines on a public address: the address, and how to log in there.
pub open spec fn public_lines(address: Option<Seq<char>>) -> Seq<char> {
    match address {
        Some(a) => "  Public IP: "@ + a + "\n"@ + "  SSH: ssh ubuntu@"@ + a + "\n"@,
        None => Seq::empty(),
    }
}

/// The line on a private address.
pub open spec fn private_line(address: Option<Seq<char>>) -> Seq<char> {
    match address {
        Some(a) => "  Private IP: "@ + a + "\n"@,
        None => Seq::empty(),
    }
}

/// What is told of an instance that runs.
pub open spec fn running_text(
    display_name: Seq<char>,
    instance_id: Seq<char>,
    addresses: AddressesView,
) -> Seq<char> {
    "Instance '"@ + display_name + "' is RUNNING!\n"@ + "  Instance ID: "@ + instance_id + "\n"@
        + public_lines(addresses.public) + private_line(addresses.private)
}

/// What is told of the end: nothing where no launch was tried or there were as
/// many tries as there may be, unless an instance was there before.
pub open spec fn notice_of(outcome: OutcomeView, display_name: Seq<char>) -> Option<NoticeView> {
    match outcome {
        OutcomeView::Exists { instance, addresses } => Some(
            NoticeView {
                message: existing_text(display_name, instance, addresses),
                success: true,
            },
        ),
        OutcomeView::Running { instance_id, addresses } => Some(
            NoticeView {
                message: running_text(display_name, instance_id, addresses),
                success: true,
            },
        ),
        OutcomeView::NotRunning(error) => Some(
            NoticeView {
                message: "Instance launched but failed to reach RUNNING state: "@
                    + error.message(),
                success: false,
            },
        ),
        OutcomeView::Refused(error) => Some(
            NoticeView { message: "Non-retryable error: "@ + error.message(), success: false },
        ),
        OutcomeView::Unexpected(error) => Some(
            NoticeView { message: "Unexpected error: "@ + error.message(), success: false },
        ),
        _ => None,
    }
}

/// The exit code of the program.
pub open spec fn code_of(outcome: OutcomeView) -> i32 {
    match outcome {
        OutcomeView::Exists { .. } => 0,
        OutcomeView::DryRun { .. } => 0,
        OutcomeView::NotRunning(_) => 0,
        OutcomeView::Running { .. } => 0,
        _ => 1,
    }
}

/// What is told of an instance that was there before.
pub fn existing_message(display_name: &str, instance: &Json, addresses: &Addresses) -> (s: String)
    ensures
        s@ == existing_text(display_name@, instance@, addresses@),
{
    let mut s: String = concat("Instance '", display_name);
    s.append("' already exists (state: ");
    s.append(get_str_or_empty(instance, "lifecycleState").as_str());
    s.append("). IP: ");
    match &addresses.public {
        Some(ip) => s.append(ip.as_str()),
        None => s.append("N/A"),
    }
    s
}

/// What is told of an instance that runs.
pub fn running_message(display_name: &str, instance_id: &str, addresses: &Addresses) -> (s: String)
    ensures
        s@ == running_text(display_name@, instance_id@, addresses@),
{
    let mut s: String = concat("Instance '", display_name);
    s.append("' is RUNNING!\n");
    s.append("  Instance ID: ");
    s.append(instance_id);
    s.append("\n");
    let ghost before = s@;
    match &addresses.public {
        Some(ip) => {
            s.append("  Public IP: ");
            s.append(ip.as_str());
            s.append("\n");
            s.append("  SSH: ssh ubuntu@");
            s.append(ip.as_str());
            s.append("\n");
        },
        None => {},
    }
    assert(s@ =~= before + public_lines(addresses@.public));
    let ghost before = s@;
    match &addresses.private {
        Some(ip) => {
            s.append("  Private IP: ");
            s.append(ip.as_str());
            s.append("\n");
        },
        None => {},
    }
    assert(s@ =~= before + private_line(addresses@.private));
    s
}

/// The view of a notice that may be missing.
pub open spec fn notice_view(notice: Option<Notice>) -> Option<NoticeView> {
    match notice {
        Some(n) => Some(n@),
        None => None,
    }
}

impl Outcome {
    /// What is told of the end.
    pub fn notice(&self, display_name: &str) -> (notice: Option<Notice>)
        ensures
            notice_view(notice) == notice_of(self@, display_name@),
    {
        match self {
            Outcome::Exists { instance, addresses } => Some(
                Notice {
                    message: existing_message(display_name, instance, addresses),
                    success: true,
                },
            ),
            Outcome::Running { instance_id, addresses } => Some(
                Notice {
                    message: running_message(display_name, instance_id.as_str(), addresses),
                    success: true,
                },
            ),
            Outcome::NotRunning(error) => Some(
                Notice {
                    message: concat(
                        "Instance launched but failed to reach RUNNING state: ",
                        error.message().as_str(),
                    ),
                    success: false,
                },
            ),
            Outcome::Refused(error) => Some(
                Notice {
                    message: concat("Non-retryable error: ", error.message().as_str()),
                    success: false,
                },
            ),
            Outcome::Unexpected(error) => Some(
                Notice {
                    message: concat("Unexpected error: ", error.message().as_str()),
                    success: false,
                },
            ),
            _ => None,
        }
    }

    /// The exit code of the program.
    pub fn exit_code(&self) -> (code: i32)
        ensures
            code == code_of(self@),
    {
        match self {
            Outcome::Exists { .. } => 0,
            Outcome::DryRun { .. } => 0,
            Outcome::NotRunning(_) => 0,
            Outcome::Running { .. } => 0,
            _ => 1,
        }
    }
}

/// Good news is told of exactly those ends at which there is an instance; and
/// of a launch that was tried and brought none, unless the tries ran out, other
/// news is told.
pub proof fn law_notices_tell_the_end(outcome: OutcomeView, display_name: Seq<char>)
    ensures
        ({
            let notice = notice_of(outcome, display_name);
            &&& notice is Some && notice->0.success <==> outcome is Exists || outcome is Running
            &&& notice is Some && !notice->0.success <==> outcome is NotRunning || outcome is Refused
                || outcome is Unexpected
        }),
{
}

/// Of an instance that was there before the name, the state and the public
/// address are told, or that there is none.
pub proof fn law_existing_instance_is_told(
    display_name: Seq<char>,
    instance: JsonTree,
    addresses: AddressesView,
)
    ensures
        notice_of(OutcomeView::Exists { instance, addresses }, display_name) is Some,
        notice_of(OutcomeView::Exists { instance, addresses }, display_name)->0.message
            == "Instance '"@ + display_name + "' already exists (state: "@ + text_or_empty(
            instance,
            "lifecycleState"@,
        ) + "). IP: "@ + if addresses.public is Some {
            addresses.public->0
        } else {
            "N/A"@
        },
{
}

/// Of an instance that runs the name and the identifier are told, the public
/// address and how to log in there where it has one, and the private address
/// where it has one.
pub proof fn law_running_instance_is_told(
    display_name: Seq<char>,
    instance_id: Seq<char>,
    public: Seq<char>,
    private: Seq<char>,
)
    ensures
        ({
            let head = "Instance '"@ + display_name + "' is RUNNING!\n"@ + "  Instance ID: "@
                + instance_id + "\n"@;
            let way_in = "  Public IP: "@ + public + "\n"@ + "  SSH: ssh ubuntu@"@ + public
                + "\n"@;
            let inside = "  Private IP: "@ + private + "\n"@;
            let told = |addresses: AddressesView|
                notice_of(
                    OutcomeView::Running { instance_id, addresses },
                    display_name,
                )->0.message;
            &&& told(AddressesView { public: Some(public), private: Some(private) }) =~= head
                + way_in + inside
            &&& told(AddressesView { public: Some(public), private: None }) =~= head + way_in
            &&& told(AddressesView { public: None, private: Some(private) }) =~= head + inside
            &&& told(AddressesView { public: None, private: None }) =~= head
        }),
{
}

/// Of a launch that brought no running instance the message of the error is told,
/// behind words that say at which point it came.
pub proof fn law_failures_are_told_with_their_message(error: ErrorView, display_name: Seq<char>)
    ensures
        notice_of(OutcomeView::NotRunning(error), display_name) == Some(
            NoticeView {
                message: "Instance launched but failed to reach RUNNING state: "@
                    + error.message(),
                success: false,
            },
        ),
        notice_of(OutcomeView::Refused(error), display_name) == Some(
            NoticeView { message: "Non-retryable error: "@ + error.message(), success: false },
        ),
        notice_of(OutcomeView::Unexpected(error), display_name) == Some(
            NoticeView { message: "Unexpected error: "@ + error.message(), success: false },
        ),
{
}

/// The program fails, with code one, exactly where something could not be found
/// or made, the tries ran out, or a launch failed for good; at every other end it
/// succeeds.
pub proof fn law_exit_code_tells_failure(outcome: OutcomeView)
    ensures
        code_of(outcome) == 0 <==> outcome is Exists || outcome is DryRun || outcome is Running
            || outcome is NotRunning,
        code_of(outcome) == 0 || code_of(outcome) == 1,
{
}

} // verus!
