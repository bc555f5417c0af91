//! The key that the instance lets in: finding it, or having it made.

use vstd::prelude::*;

use crate::flow::concat;
use crate::text::{trim, trimmed, views};

verus! {

/// What `ssh-keygen` is run for.
#[derive(Clone, Copy, Debug, PartialEq, Eq, Structural)]
pub enum KeyCommand {
    /// The public key of a private one.
    Derive,
    /// A new RSA key.
    Rsa,
    /// A new Ed25519 key.
    Ed25519,
}

/// A run of `ssh-keygen`.
pub struct KeyRun {
    pub key_file: String,
    pub command: KeyCommand,
}

/// A read of the public key.
pub struct KeyRead {
    pub pub_file: String,
}

/// What comes next on the way to the public key.
pub enum KeyStep {
    /// A run of `ssh-keygen` with these arguments.
    Run { args: Vec<String>, run: KeyRun },
    /// A read of the public key.
    Read(KeyRead),
    /// The key is there; `write`, if there is one, goes to its file.
    Done { key: String, write: Option<String> },
    /// There is no key.
    Fail(String),
}

/// A run of `ssh-keygen`.
pub struct RunView {
    pub key_file: Seq<char>,
    pub command: KeyCommand,
}

impl View for KeyRun {
    type V = RunView;

    open spec fn view(&self) -> RunView {
        RunView { key_file: self.key_file@, command: self.command }
    }
}

impl View for KeyRead {
    type V = Seq<char>;

    open spec fn view(&self) -> Seq<char> {
        self.pub_file@
    }
}

/// What comes next on the way to the public key.
pub enum KeyStepView {
    Run { args: Seq<Seq<char>>, run: RunView },
    Read { path: Seq<char> },
    Done { key: Seq<char>, write: Option<Seq<char>> },
    Fail(Seq<char>),
}

impl View for KeyStep {
    type V = KeyStepView;

    open spec fn view(&self) -> KeyStepView {
        match self {
            KeyStep::Run { args, run } => KeyStepView::Run { args: views(args@), run: run@ },
            KeyStep::Read(read) => KeyStepView::Read { path: read@ },
            KeyStep::Done { key, write } => KeyStepView::Done {
                key: key@,
                write: match write {
                    Some(content) => Some(content@),
                    None => None,
                },
            },
            KeyStep::Fail(complaint) => KeyStepView::Fail(complaint@),
        }
    }
}

/// The file of the public key.
pub open spec fn pub_file(key_file: Seq<char>) -> Seq<char> {
    key_file + ".pub"@
}

/// The arguments of a run.
pub open spec fn arguments(run: RunView) -> Seq<Seq<char>> {
    match run.command {
        KeyCommand::Derive => seq!["-y"@, "-f"@, run.key_file],
        KeyCommand::Rsa => seq![
            "-t"@,
            "rsa"@,
            "-b"@,
            "4096"@,
            "-f"@,
            run.key_file,
            "-N"@,
            ""@,
            "-q"@,
        ],
        KeyCommand::Ed25519 => seq![
            "-t"@,
            "ed25519"@,
            "-f"@,
            run.key_file,
            "-N"@,
            ""@,
            "-q"@,
        ],
    }
}

/// A run of `ssh-keygen`.
pub open spec fn run_step(key_file: Seq<char>, command: KeyCommand) -> KeyStepView {
    let run = RunView { key_file, command };
    KeyStepView::Run { args: arguments(run), run }
}

/// The complaint that no key can be made.
pub open spec fn cannot_generate(key_file: Seq<char>) -> Seq<char> {
    "Cannot generate SSH key. Run: ssh-keygen -t rsa -b 4096 -f "@ + key_file
}

/// The first step: a public key that is there is read, else it is had from the
/// private key, and where that is missing too a key is made.
pub open spec fn first_key_step(
    key_file: Seq<char>,
    pub_exists: bool,
    key_exists: bool,
) -> KeyStepView {
    if pub_exists {
        KeyStepView::Read { path: pub_file(key_file) }
    } else if key_exists {
        run_step(key_file, KeyCommand::Derive)
    } else {
        run_step(key_file, KeyCommand::Rsa)
    }
}

impl RunView {
    /// The step after a run, which brought `output` if it succeeded.
    pub open spec fn next(self, output: Option<Seq<char>>) -> KeyStepView {
        match (self.command, output) {
            (KeyCommand::Derive, Some(out)) if out.len() > 0 => KeyStepView::Done {
                key: trim(out),
                write: Some(trim(out) + "\n"@),
            },
            (KeyCommand::Derive, _) => run_step(self.key_file, KeyCommand::Rsa),
            (_, Some(_)) => KeyStepView::Read { path: pub_file(self.key_file) },
            (KeyCommand::Rsa, None) => run_step(self.key_file, KeyCommand::Ed25519),
            (KeyCommand::Ed25519, None) => KeyStepView::Fail(cannot_generate(self.key_file)),
        }
    }
}

/// The step after a read of `path`, which brought the content or a complaint.
pub open spec fn after_read(
    path: Seq<char>,
    content: Result<Seq<char>, Seq<char>>,
) -> KeyStepView {
    match content {
        Ok(text) => KeyStepView::Done { key: trim(text), write: None },
        Err(complaint) => KeyStepView::Fail("cannot read "@ + path + ": "@ + complaint),
    }
}

fn push(args: &mut Vec<String>, arg: &str)
    ensures
        views(final(args)@) == views(old(args)@).push(arg@),
{
    args.push(arg.to_owned());
    assert(views(args@) =~= views(old(args)@).push(arg@));
}

fn run_of(key_file: &str, command: KeyCommand) -> (step: KeyStep)
    ensures
        step@ == run_step(key_file@, command),
{
    let run: KeyRun = KeyRun { key_file: key_file.to_owned(), command };
    let mut args: Vec<String> = Vec::new();
    assert(views(args@) =~= seq![]);
    match command {
        KeyCommand::Derive => {
            push(&mut args, "-y");
            push(&mut args, "-f");
            push(&mut args, key_file);
        },
        KeyCommand::Rsa => {
            push(&mut args, "-t");
            push(&mut args, "rsa");
            push(&mut args, "-b");
            push(&mut args, "4096");
            push(&mut args, "-f");
            push(&mut args, key_file);
            push(&mut args, "-N");
            push(&mut args, "");
            push(&mut args, "-q");
        },
        KeyCommand::Ed25519 => {
            push(&mut args, "-t");
            push(&mut args, "ed25519");
            push(&mut args, "-f");
            push(&mut args, key_file);
            push(&mut args, "-N");
            push(&mut args, "");
            push(&mut args, "-q");
        },
    }
    assert(views(args@) =~= arguments(run@));
    KeyStep::Run { args, run }
}

/// The file of the public key.
pub fn pub_path(key_file: &str) -> (path: String)
    ensures
        path@ == pub_file(key_file@),
{
    concat(key_file, ".pub")
}

fn read_of(key_file: &str) -> (step: KeyStep)
    ensures
        step@ == (KeyStepView::Read { path: pub_file(key_file@) }),
{
    KeyStep::Read(KeyRead { pub_file: pub_path(key_file) })
}

/// Starts on the way to the public key.
pub fn ensure_ssh_key(key_file: &str, pub_exists: bool, key_exists: bool) -> (step: KeyStep)
    ensures
        step@ == first_key_step(key_file@, pub_exists, key_exists),
{
    if pub_exists {
        read_of(key_file)
    } else if key_exists {
        run_of(key_file, KeyCommand::Derive)
    } else {
        run_of(key_file, KeyCommand::Rsa)
    }
}

impl KeyRun {
    /// Goes on after a run, which brought `output` if it succeeded.
    pub fn ran(self, output: Option<String>) -> (step: KeyStep)
        ensures
            step@ == self@.next(
                match output {
                    Some(out) => Some(out@),
                    None => None,
                },
            ),
    {
        match output {
            Some(out) => match self.command {
                KeyCommand::Derive => {
                    if out.as_str().is_empty() {
                        return run_of(self.key_file.as_str(), KeyCommand::Rsa);
                    }
                    let key: String = trimmed(out.as_str());
                    let content: String = concat(key.as_str(), "\n");
                    KeyStep::Done { key, write: Some(content) }
                },
                _ => read_of(self.key_file.as_str()),
            },
            None => match self.command {
                KeyCommand::Derive => run_of(self.key_file.as_str(), KeyCommand::Rsa),
                KeyCommand::Rsa => run_of(self.key_file.as_str(), KeyCommand::Ed25519),
                KeyCommand::Ed25519 => KeyStep::Fail(
                    concat(
                        "Cannot generate SSH key. Run: ssh-keygen -t rsa -b 4096 -f ",
                        self.key_file.as_str(),
                    ),
                ),
            },
        }
    }
}

impl KeyRead {
    /// Goes on after the read, which brought the content or a complaint.
    pub fn read(self, content: Result<String, String>) -> (step: KeyStep)
        ensures
            step@ == after_read(
                self@,
                match content {
                    Ok(text) => Ok(text@),
                    Err(complaint) => Err(complaint@),
                },
            ),
    {
        match content {
            Ok(text) => KeyStep::Done { key: trimmed(text.as_str()), write: None },
            Err(complaint) => {
                let mut s: String = concat("cannot read ", self.pub_file.as_str());
                s.append(": ");
                s.append(complaint.as_str());
                KeyStep::Fail(s)
            },
        }
    }
}

/// No key is made where there is one: a public key that is there is only read,
/// and of a private key that is there the public one is asked for first.
pub proof fn law_existing_key_is_used(key_file: Seq<char>, key_exists: bool)
    ensures
        first_key_step(key_file, true, key_exists) == (KeyStepView::Read {
            path: pub_file(key_file),
        }),
        first_key_step(key_file, false, true) is Run,
        first_key_step(key_file, false, true)->run.command is Derive,
        first_key_step(key_file, false, false) is Run,
        first_key_step(key_file, false, false)->run.command is Rsa,
{
}

/// How many further runs there may be after a run.
pub open spec fn runs_left(command: KeyCommand) -> int {
    match command {
        KeyCommand::Derive => 2,
        KeyCommand::Rsa => 1,
        KeyCommand::Ed25519 => 0,
    }
}

/// Each run brings the end nearer, and a run that makes a key is followed by no
/// other.
pub proof fn law_runs_come_to_an_end(run: RunView, output: Option<Seq<char>>)
    ensures
        run.next(output) is Run ==> runs_left(run.next(output)->run.command) < runs_left(
            run.command,
        ),
        output is Some && !(run.command is Derive) ==> run.next(output) is Read,
{
}

/// The public key of a private one is asked for with its file; a new key is made
/// in the file, without a passphrase and without output, as an RSA key of 4096
/// bits or as an Ed25519 key.
pub proof fn law_runs_have_their_arguments(key_file: Seq<char>)
    ensures
        arguments(RunView { key_file, command: KeyCommand::Derive }) =~= seq![
            "-y"@,
            "-f"@,
            key_file,
        ],
        arguments(RunView { key_file, command: KeyCommand::Rsa }) =~= seq![
            "-t"@,
            "rsa"@,
            "-b"@,
            "4096"@,
            "-f"@,
            key_file,
            "-N"@,
            ""@,
            "-q"@,
        ],
        arguments(RunView { key_file, command: KeyCommand::Ed25519 }) =~= seq![
            "-t"@,
            "ed25519"@,
            "-f"@,
            key_file,
            "-N"@,
            ""@,
            "-q"@,
        ],
        forall|command: KeyCommand|
            #![trigger run_step(key_file, command)]
            run_step(key_file, command) is Run && run_step(key_file, command)->run == (RunView {
                key_file,
                command,
            }) && run_step(key_file, command)->args == arguments(RunView { key_file, command }),
        pub_file(key_file) == key_file + ".pub"@,
{
}

/// A public key that a run tells of is the key, without white space round it, and
/// is written to its file as a line. A run that tells nothing or fails is followed
/// by the making of an RSA key, that by the making of an Ed25519 key where it
/// fails, and that by a complaint. A key that was made is read from its file.
pub proof fn law_runs_lead_to_the_key(key_file: Seq<char>, out: Seq<char>)
    ensures
        ({
            let derive = RunView { key_file, command: KeyCommand::Derive };
            let rsa = RunView { key_file, command: KeyCommand::Rsa };
            let ed25519 = RunView { key_file, command: KeyCommand::Ed25519 };
            let read = KeyStepView::Read { path: key_file + ".pub"@ };
            &&& out.len() > 0 ==> derive.next(Some(out)) == (KeyStepView::Done {
                key: trim(out),
                write: Some(trim(out) + "\n"@),
            })
            &&& out.len() == 0 ==> derive.next(Some(out)) is Run && derive.next(Some(out))->run
                == rsa
            &&& derive.next(None) is Run && derive.next(None)->run == rsa
            &&& rsa.next(Some(out)) == read
            &&& rsa.next(None) is Run && rsa.next(None)->run == ed25519
            &&& ed25519.next(Some(out)) == read
            &&& ed25519.next(None) == KeyStepView::Fail(
                "Cannot generate SSH key. Run: ssh-keygen -t rsa -b 4096 -f "@ + key_file,
            )
        }),
{
}

/// The key is what its file holds, without white space round it, and nothing is
/// written; a file that cannot be read is named, with the reason.
pub proof fn law_key_is_what_the_file_holds(
    path: Seq<char>,
    text: Seq<char>,
    complaint: Seq<char>,
)
    ensures
        after_read(path, Ok(text)) == (KeyStepView::Done { key: trim(text), write: None }),
        after_read(path, Err(complaint)) == KeyStepView::Fail(
            "cannot read "@ + path + ": "@ + complaint,
        ),
{
}

} // verus!
