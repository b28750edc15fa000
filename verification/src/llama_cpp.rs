//! Running llama.cpp: the check that its three programs are installed (with
//! an offer to build them), and the command lines that start the chat
//! client, a single completion, and the server.
use vstd::prelude::*;
use crate::setup::{is_yes_answer, is_yes_spec, lemma_yes_means_one_of_four, InstallPlan};
use crate::text::{lowercase_of, trim};

verus! {

/// How `check` talks to the user.
#[derive(Clone, Copy, Debug)]
pub struct CheckOptions {
    pub verbose: bool,
    pub interactive: bool,
}

/// Where a prompt comes from: given directly, or read from a file.
#[derive(Clone, Debug)]
pub enum ClientInput {
    Prompt(String),
    File(String),
}

/// The shell command that builds llama.cpp (with server and CUDA support)
/// and copies its three programs into `~/.local/bin`.
pub const INSTALL_COMMAND: &'static str = "if [ -d llama.cpp ]; then cd llama.cpp; else git clone https://github.com/ggerganov/llama.cpp.git && cd llama.cpp; fi && cmake -B build -DLLAMA_SERVER=ON -DGGML_CUDA=ON && cmake --build build -j && mkdir -p ~/.local/bin && cp -f \"$(pwd)/build/bin/llama-cli\" ~/.local/bin/llama-cli && cp -f \"$(pwd)/build/bin/llama-server\" ~/.local/bin/llama-server && cp -f \"$(pwd)/build/bin/llama-completion\" ~/.local/bin/llama-completion";

/// The plan that builds llama.cpp; the command shown is the command run.
pub fn install_plan() -> (r: InstallPlan)
    ensures
        r == (InstallPlan { message: INSTALL_COMMAND, command: Some(INSTALL_COMMAND) }),
{
    InstallPlan { message: INSTALL_COMMAND, command: Some(INSTALL_COMMAND) }
}

/// The versions of `llama-cli`, `llama-server` and `llama-completion`, when
/// all three report one.
pub fn llama_cpp_versions(cli: Option<String>, server: Option<String>, completion: Option<String>) -> (r:
    Option<(String, String, String)>)
    ensures
        r == (match (cli, server, completion) {
            (Some(a), Some(b), Some(c)) => Some((a, b, c)),
            _ => None,
        }),
{
    match (cli, server, completion) {
        (Some(a), Some(b), Some(c)) => Some((a, b, c)),
        _ => None,
    }
}


/// Where `check` stands.
pub enum CheckState {
    /// The three programs are asked for their versions the first time.
    ProbingVersions,
    /// The user is asked whether to run `command`.
    AwaitingAnswer { command: &'static str },
    /// The install command runs.
    Installing,
    /// The three programs are asked again after installing.
    Verifying,
    Done,
}

/// What the caller reports back to `check`.
pub enum CheckEvent {
    /// The versions of the three programs, when all three report one.
    Versions(Option<(String, String, String)>),
    /// The line the user typed, or `None` when prompting or reading failed.
    Answered(Option<String>),
    /// Whether the install command ran and succeeded.
    InstallFinished(bool),
}

/// The kind of error that `check` returns.
#[derive(Clone, Copy, Debug, PartialEq, Eq, Structural)]
pub enum FailureKind {
    NotFound,
    Interrupted,
}

/// Why `check` failed.
pub enum CheckFailure {
    /// The programs are missing; the error carries this kind and message.
    Missing { kind: FailureKind, message: &'static str },
    /// The install command could not be run or failed; its own error is returned.
    InstallCommand,
}

/// What the caller does next.
pub enum CheckAction {
    ProbeVersions,
    AskYesNo { prompt: &'static str },
    RunInstallCommand { command: &'static str },
    Finish(Result<(), CheckFailure>),
}

/// One step of `check`: the new state, the lines to print on standard
/// output, and the next action.
pub struct CheckStep {
    pub state: CheckState,
    pub lines: Vec<String>,
    pub action: CheckAction,
}

pub open spec fn strings_view(ls: Seq<String>) -> Seq<Seq<char>> {
    ls.map_values(|l: String| l@)
}

/// Whether `event` is the report that `state` waits for.
pub open spec fn event_fits(state: CheckState, event: CheckEvent) -> bool {
    match (state, event) {
        (CheckState::ProbingVersions, CheckEvent::Versions(_)) => true,
        (CheckState::AwaitingAnswer { .. }, CheckEvent::Answered(_)) => true,
        (CheckState::Installing, CheckEvent::InstallFinished(_)) => true,
        (CheckState::Verifying, CheckEvent::Versions(_)) => true,
        _ => false,
    }
}

pub open spec fn answered_yes(a: Option<String>) -> bool {
    a matches Some(t) && is_yes_spec(t@)
}

pub open spec fn version_lines(headline: Seq<char>, v: (String, String, String)) -> Seq<Seq<char>> {
    seq![
        headline,
        "llama-cli version: "@ + v.0@,
        "llama-server version: "@ + v.1@,
        "llama-completion version: "@ + v.2@,
    ]
}

/// The message when the programs are missing and nothing was installed.
pub open spec fn not_installed_text() -> &'static str {
    "llama-cli, llama-server, and llama-completion are not installed."
}

/// The state after `event` in `state`.
pub open spec fn check_next_state(options: CheckOptions, state: CheckState, event: CheckEvent) -> CheckState {
    match (state, event) {
        (CheckState::ProbingVersions, CheckEvent::Versions(None)) => if options.interactive {
            CheckState::AwaitingAnswer { command: INSTALL_COMMAND }
        } else {
            CheckState::Done
        },
        (CheckState::AwaitingAnswer { .. }, CheckEvent::Answered(a)) => if answered_yes(a) {
            CheckState::Installing
        } else {
            CheckState::Done
        },
        (CheckState::Installing, CheckEvent::InstallFinished(true)) => CheckState::Verifying,
        _ => CheckState::Done,
    }
}

/// The lines printed (when verbose) on `event` in `state`.
pub open spec fn check_lines(state: CheckState, event: CheckEvent) -> Seq<Seq<char>> {
    match (state, event) {
        (CheckState::ProbingVersions, CheckEvent::Versions(Some(v))) => version_lines(
            "llama.cpp is installed."@,
            v,
        ),
        (CheckState::ProbingVersions, CheckEvent::Versions(None)) => seq![
            "llama-cli, llama-server, and llama-completion are not all installed."@,
            "Installation command:"@,
            INSTALL_COMMAND@,
        ],
        (CheckState::AwaitingAnswer { .. }, CheckEvent::Answered(a)) => if answered_yes(a) {
            seq![]
        } else {
            seq!["Skipping installation."@]
        },
        (CheckState::Installing, CheckEvent::InstallFinished(true)) => seq![
            "Installation command executed."@,
        ],
        (CheckState::Verifying, CheckEvent::Versions(Some(v))) => version_lines(
            "llama.cpp installation verified."@,
            v,
        ),
        _ => seq![],
    }
}

/// The action after `event` in `state`.
pub open spec fn check_next_action(options: CheckOptions, state: CheckState, event: CheckEvent) -> CheckAction {
    match (state, event) {
        (CheckState::ProbingVersions, CheckEvent::Versions(Some(_))) => CheckAction::Finish(Ok(())),
        (CheckState::ProbingVersions, CheckEvent::Versions(None)) => if options.interactive {
            CheckAction::AskYesNo { prompt: "Install llama.cpp? [y/N]: " }
        } else {
            CheckAction::Finish(
                Err(CheckFailure::Missing { kind: FailureKind::NotFound, message: not_installed_text() }),
            )
        },
        (CheckState::AwaitingAnswer { command }, CheckEvent::Answered(a)) => if answered_yes(a) {
            CheckAction::RunInstallCommand { command }
        } else {
            CheckAction::Finish(
                Err(
                    CheckFailure::Missing { kind: FailureKind::Interrupted, message: not_installed_text() },
                ),
            )
        },
        (CheckState::Installing, CheckEvent::InstallFinished(true)) => CheckAction::ProbeVersions,
        (CheckState::Installing, CheckEvent::InstallFinished(false)) => CheckAction::Finish(
            Err(CheckFailure::InstallCommand),
        ),
        (CheckState::Verifying, CheckEvent::Versions(Some(_))) => CheckAction::Finish(Ok(())),
        _ => CheckAction::Finish(
            Err(
                CheckFailure::Missing {
                    kind: FailureKind::NotFound,
                    message: "llama.cpp installation completed, but llama-cli, llama-server, and llama-completion are still not available.",
                },
            ),
        ),
    }
}

/// The first step of `check`: the programs are asked for their versions.
pub fn start_check() -> (r: CheckStep)
    ensures
        r.state == CheckState::ProbingVersions,
        r.lines@.len() == 0,
        r.action == CheckAction::ProbeVersions,
{
    CheckStep { state: CheckState::ProbingVersions, lines: Vec::new(), action: CheckAction::ProbeVersions }
}

fn joined(head: &str, tail: &str) -> (r: String)
    ensures
        r@ == head@ + tail@,
{
    let mut text = head.to_owned();
    text.append(tail);
    text
}

fn push_version_lines(lines: &mut Vec<String>, headline: &str, v: &(String, String, String))
    ensures
        strings_view(final(lines)@) == strings_view(old(lines)@) + version_lines(headline@, *v),
{
    let ghost start = lines@;
    lines.push(headline.to_owned());
    lines.push(joined("llama-cli version: ", v.0.as_str()));
    lines.push(joined("llama-server version: ", v.1.as_str()));
    lines.push(joined("llama-completion version: ", v.2.as_str()));
    assert(strings_view(lines@) =~= strings_view(start) + version_lines(headline@, *v));
}

/// One step of `check` with `options`: `event` arrives in `state`.  Lines
/// are printed only when `options.verbose` holds; the question is asked only
/// when `options.interactive` holds.
pub fn check_step(options: CheckOptions, state: CheckState, event: CheckEvent) -> (r: CheckStep)
    requires
        event_fits(state, event),
    ensures
        r.state == check_next_state(options, state, event),
        strings_view(r.lines@) == (if options.verbose {
            check_lines(state, event)
        } else {
            seq![]
        }),
        r.action == check_next_action(options, state, event),
{
    let mut lines: Vec<String> = Vec::new();
    let ghost expected = if options.verbose {
        check_lines(state, event)
    } else {
        seq![]
    };
    match (state, event) {
        (CheckState::ProbingVersions, CheckEvent::Versions(Some(v))) => {
            if options.verbose {
                push_version_lines(&mut lines, "llama.cpp is installed.", &v);
            }
            assert(strings_view(lines@) =~= expected);
            CheckStep { state: CheckState::Done, lines, action: CheckAction::Finish(Ok(())) }
        },
        (CheckState::ProbingVersions, CheckEvent::Versions(None)) => {
            let plan = install_plan();
            if options.verbose {
                lines.push("llama-cli, llama-server, and llama-completion are not all installed.".to_owned());
                lines.push("Installation command:".to_owned());
                lines.push(plan.message.to_owned());
            }
            assert(strings_view(lines@) =~= expected);
            match plan.command {
                None => CheckStep {
                    state: CheckState::Done,
                    lines,
                    action: CheckAction::Finish(
                        Err(
                            CheckFailure::Missing {
                                kind: FailureKind::NotFound,
                                message: "No automatic install command could be determined. Please check the llama.cpp install command for your distribution.",
                            },
                        ),
                    ),
                },
                Some(command) => if !options.interactive {
                    CheckStep {
                        state: CheckState::Done,
                        lines,
                        action: CheckAction::Finish(
                            Err(
                                CheckFailure::Missing {
                                    kind: FailureKind::NotFound,
                                    message: "llama-cli, llama-server, and llama-completion are not installed.",
                                },
                            ),
                        ),
                    }
                } else {
                    CheckStep {
                        state: CheckState::AwaitingAnswer { command },
                        lines,
                        action: CheckAction::AskYesNo { prompt: "Install llama.cpp? [y/N]: " },
                    }
                },
            }
        },
        (CheckState::AwaitingAnswer { command }, CheckEvent::Answered(a)) => {
            let yes = match &a {
                Some(t) => is_yes_answer(t.as_str()),
                None => false,
            };
            if yes {
                assert(strings_view(lines@) =~= expected);
                CheckStep {
                    state: CheckState::Installing,
                    lines,
                    action: CheckAction::RunInstallCommand { command },
                }
            } else {
                if options.verbose {
                    lines.push("Skipping installation.".to_owned());
                }
                assert(strings_view(lines@) =~= expected);
                CheckStep {
                    state: CheckState::Done,
                    lines,
                    action: CheckAction::Finish(
                        Err(
                            CheckFailure::Missing {
                                kind: FailureKind::Interrupted,
                                message: "llama-cli, llama-server, and llama-completion are not installed.",
                            },
                        ),
                    ),
                }
            }
        },
        (CheckState::Installing, CheckEvent::InstallFinished(ok)) => {
            if ok {
                if options.verbose {
                    lines.push("Installation command executed.".to_owned());
                }
                assert(strings_view(lines@) =~= expected);
                CheckStep { state: CheckState::Verifying, lines, action: CheckAction::ProbeVersions }
            } else {
                assert(strings_view(lines@) =~= expected);
                CheckStep {
                    state: CheckState::Done,
                    lines,
                    action: CheckAction::Finish(Err(CheckFailure::InstallCommand)),
                }
            }
        },
        (CheckState::Verifying, CheckEvent::Versions(found)) => {
            match found {
                Some(v) => {
                    if options.verbose {
                        push_version_lines(&mut lines, "llama.cpp installation verified.", &v);
                    }
                    assert(strings_view(lines@) =~= expected);
                    CheckStep { state: CheckState::Done, lines, action: CheckAction::Finish(Ok(())) }
                },
                None => {
                    assert(strings_view(lines@) =~= expected);
                    CheckStep {
                        state: CheckState::Done,
                        lines,
                        action: CheckAction::Finish(
                            Err(
                                CheckFailure::Missing {
                                    kind: FailureKind::NotFound,
                                    message: "llama.cpp installation completed, but llama-cli, llama-server, and llama-completion are still not available.",
                                },
                            ),
                        ),
                    }
                },
            }
        },
        _ => {
            proof {
                assert(false);
            }
            CheckStep { state: CheckState::Done, lines, action: CheckAction::Finish(Ok(())) }
        },
    }
}


pub open spec fn check_rank(state: CheckState) -> int {
    match state {
        CheckState::ProbingVersions => 4,
        CheckState::AwaitingAnswer { .. } => 3,
        CheckState::Installing => 2,
        CheckState::Verifying => 1,
        CheckState::Done => 0,
    }
}

/// Law: `check` succeeds only when all three programs reported a version.
pub proof fn lemma_check_succeeds_only_with_versions(
    options: CheckOptions,
    state: CheckState,
    event: CheckEvent,
)
    ensures
        check_next_action(options, state, event) == CheckAction::Finish(Ok(())) ==> event matches CheckEvent::Versions(Some(_)),
{
}

/// Law: `check` never asks the user when it is not interactive, and it runs
/// the install command only right after the user answered yes.
pub proof fn lemma_check_asks_before_installing(
    options: CheckOptions,
    state: CheckState,
    event: CheckEvent,
)
    ensures
        !options.interactive ==> !(check_next_action(options, state, event) is AskYesNo),
        check_next_action(options, state, event) is RunInstallCommand ==> state is AwaitingAnswer
            && answered_yes(event->Answered_0),
        check_next_action(options, state, event) is RunInstallCommand ==> (event matches CheckEvent::Answered(Some(t))
            && trim(t@).len() > 0 && {
            let a = lowercase_of(trim(t@));
            a == "y"@ || a == "yes"@ || a == "예"@ || a == "ㅇ"@
        }),
        (state is AwaitingAnswer && (event matches CheckEvent::Answered(Some(t)) && trim(t@).len() == 0))
            ==> check_next_action(options, state, event) == CheckAction::Finish(
            Err(
                CheckFailure::Missing { kind: FailureKind::Interrupted, message: not_installed_text() },
            ),
        ),
        check_next_state(options, state, event) is AwaitingAnswer ==> options.interactive,
{
    if let CheckEvent::Answered(Some(t)) = event {
        lemma_yes_means_one_of_four(t@);
    }
}

/// Law: every step of `check` moves it forward, so it ends after at most
/// four reports; it finishes exactly when it reaches `Done`.
pub proof fn lemma_check_moves_forward(options: CheckOptions, state: CheckState, event: CheckEvent)
    requires
        event_fits(state, event),
    ensures
        check_rank(check_next_state(options, state, event)) < check_rank(state),
        check_next_state(options, state, event) is Done <==> check_next_action(
            options,
            state,
            event,
        ) is Finish,
{
}


/// A program to start and its arguments.
pub struct Launch {
    pub program: &'static str,
    pub args: Vec<String>,
}

fn owned(s: &str) -> (r: String)
    ensures
        r@ == s@,
{
    s.to_owned()
}

/// The chat client for `model`: `llama-cli -hf <model>`, with `-p <prompt>`
/// when a prompt is given.
pub fn client_launch(model: &str, prompt: Option<&str>) -> (r: Launch)
    ensures
        r.program == "llama-cli",
        strings_view(r.args@) == seq!["-hf"@, model@] + match prompt {
            Some(p) => seq!["-p"@, p@],
            None => seq![],
        },
{
    let mut args: Vec<String> = Vec::new();
    args.push(owned("-hf"));
    args.push(owned(model));
    if let Some(p) = prompt {
        args.push(owned("-p"));
        args.push(owned(p));
    }
    let r = Launch { program: "llama-cli", args };
    assert(strings_view(r.args@) =~= seq!["-hf"@, model@] + match prompt {
        Some(p) => seq!["-p"@, p@],
        None => seq![],
    });
    r
}

/// The line echoed before starting the chat client for `model`.
pub fn client_echo(model: &str) -> (r: String)
    ensures
        r@ == "llama-cli -hf "@ + model@,
{
    joined("llama-cli -hf ", model)
}

/// A single completion for `model`: `llama-completion -hf <model>
/// --no-conversation --single-turn --simple-io --log-disable`, with
/// `--prompt <prompt>` when a prompt is given.
pub fn completion_launch(model: &str, prompt: Option<&str>) -> (r: Launch)
    ensures
        r.program == "llama-completion",
        strings_view(r.args@) == seq![
            "-hf"@,
            model@,
            "--no-conversation"@,
            "--single-turn"@,
            "--simple-io"@,
            "--log-disable"@,
        ] + match prompt {
            Some(p) => seq!["--prompt"@, p@],
            None => seq![],
        },
{
    let mut args: Vec<String> = Vec::new();
    args.push(owned("-hf"));
    args.push(owned(model));
    args.push(owned("--no-conversation"));
    args.push(owned("--single-turn"));
    args.push(owned("--simple-io"));
    args.push(owned("--log-disable"));
    if let Some(p) = prompt {
        args.push(owned("--prompt"));
        args.push(owned(p));
    }
    let r = Launch { program: "llama-completion", args };
    assert(strings_view(r.args@) =~= seq![
        "-hf"@,
        model@,
        "--no-conversation"@,
        "--single-turn"@,
        "--simple-io"@,
        "--log-disable"@,
    ] + match prompt {
        Some(p) => seq!["--prompt"@, p@],
        None => seq![],
    });
    r
}

/// The line echoed before a completion for `model`; it leaves out
/// `--no-conversation`.
pub fn completion_echo(model: &str) -> (r: String)
    ensures
        r@ == "llama-completion -hf "@ + model@ + " --single-turn --simple-io --log-disable"@,
{
    let mut echo = joined("llama-completion -hf ", model);
    echo.append(" --single-turn --simple-io --log-disable");
    echo
}

/// The server for `model`: `llama-server -hf <model>`.
pub fn server_launch(model: &str) -> (r: Launch)
    ensures
        r.program == "llama-server",
        strings_view(r.args@) == seq!["-hf"@, model@],
{
    let mut args: Vec<String> = Vec::new();
    args.push(owned("-hf"));
    args.push(owned(model));
    let r = Launch { program: "llama-server", args };
    assert(strings_view(r.args@) =~= seq!["-hf"@, model@]);
    r
}

/// The line echoed before starting the server for `model`; it names
/// `--webui-mcp-proxy`, which is not passed.
pub fn server_echo(model: &str) -> (r: String)
    ensures
        r@ == "llama-server --webui-mcp-proxy -hf "@ + model@,
{
    joined("llama-server --webui-mcp-proxy -hf ", model)
}

/// The file whose contents are the prompt, when the prompt is to be read
/// from a file.
pub fn prompt_file(input: &Option<ClientInput>) -> (r: Option<String>)
    ensures
        r == (match input {
            Some(ClientInput::File(f)) => Some(*f),
            _ => None,
        }),
{
    match input {
        Some(ClientInput::File(f)) => Some(f.clone()),
        _ => None,
    }
}

/// The prompt passed to the program: the one given, or `file_text`, the
/// contents of the prompt file, when the prompt comes from a file; none
/// when no input was given.
pub fn chosen_prompt(input: Option<ClientInput>, file_text: Option<String>) -> (r: Option<String>)
    ensures
        r == (match input {
            Some(ClientInput::Prompt(p)) => Some(p),
            Some(ClientInput::File(_)) => file_text,
            None => None,
        }),
{
    match input {
        Some(ClientInput::Prompt(p)) => Some(p),
        Some(ClientInput::File(_)) => file_text,
        None => None,
    }
}

/// The outcome of running a program: success, or an error whose text
/// names the exit `status`.
pub fn exit_result(success: bool, status: &str) -> (r: Result<(), String>)
    ensures
        success ==> r == Ok::<(), String>(()),
        !success ==> (r matches Err(e) && e@ == "Exit code: "@ + status@),
{
    if success {
        Ok(())
    } else {
        Err(exit_code_message(status))
    }
}

/// The error text for a program that exited unsuccessfully with `status`.
pub fn exit_code_message(status: &str) -> (r: String)
    ensures
        r@ == "Exit code: "@ + status@,
{
    joined("Exit code: ", status)
}

} // verus!
