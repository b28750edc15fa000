//! The dialogue that checks for a tool and offers to install it: report the
//! version when the tool is there; otherwise show the install command, ask
//! before running it, and report how it went.
//!
//! The dialogue is a state machine: the caller performs each action (finding
//! an install plan, asking the user, running the command), prints the lines
//! of each step, and hands the outcome back as the next event.
use vstd::prelude::*;
use crate::text::{chars_of, lowercase_of, substring, to_lowercase, trim, trim_range_exec};

verus! {

/// How to install a tool: the command to show, and the command to run, if any.
pub struct InstallPlan {
    pub message: &'static str,
    pub command: Option<&'static str>,
}

/// Whether the answer typed by the user means yes: once trimmed and
/// lowercased it reads `y`, `yes`, `예` or `ㅇ` (an answer that is empty once
/// trimmed, such as a bare Enter, is no).
pub open spec fn is_yes_spec(input: Seq<char>) -> bool {
    let t = trim(input);
    let a = lowercase_of(t);
    t.len() > 0 && (a == "y"@ || a == "yes"@ || a == "예"@ || a == "ㅇ"@)
}

/// Whether the answer typed by the user means yes.
pub fn is_yes_answer(input: &str) -> (r: bool)
    ensures
        r == is_yes_spec(input@),
{
    let s = chars_of(input);
    let (a, b) = trim_range_exec(&s, 0, s.len());
    if a == b {
        return false;
    }
    let trimmed = substring(input, a, b);
    let lower = to_lowercase(trimmed.as_str());
    lower == "y".to_owned() || lower == "yes".to_owned() || lower == "예".to_owned() || lower
        == "ㅇ".to_owned()
}


/// Law: an answer means yes only when, trimmed, it is not empty and its
/// lowercase form is exactly `y`, `yes`, `예` or `ㅇ`; in particular a blank
/// answer never means yes, and an answer that trims to one of those four
/// lowercase words always does.
pub proof fn lemma_yes_means_one_of_four(input: Seq<char>)
    ensures
        is_yes_spec(input) ==> trim(input).len() > 0 && {
            let a = lowercase_of(trim(input));
            a == "y"@ || a == "yes"@ || a == "예"@ || a == "ㅇ"@
        },
        trim(input).len() == 0 ==> !is_yes_spec(input),
        (trim(input) == "y"@ || trim(input) == "yes"@ || trim(input) == "예"@ || trim(input) == "ㅇ"@)
            && lowercase_of(trim(input)) == trim(input) ==> is_yes_spec(input),
{
    reveal_strlit("y");
    reveal_strlit("yes");
    reveal_strlit("예");
    reveal_strlit("ㅇ");
}

/// The tools whose presence this dialogue checks.
#[derive(Clone, Copy, Debug, PartialEq, Eq, Structural)]
pub enum Tool {
    CudaToolkit,
    LlamaCpp,
}

/// One line to print, on standard error when `to_stderr` holds.
pub struct OutputLine {
    pub text: String,
    pub to_stderr: bool,
}

pub open spec fn line_view(l: OutputLine) -> (Seq<char>, bool) {
    (l.text@, l.to_stderr)
}

pub open spec fn lines_view(ls: Seq<OutputLine>) -> Seq<(Seq<char>, bool)> {
    ls.map_values(|l: OutputLine| line_view(l))
}

/// Where the dialogue stands.
pub enum SetupState {
    CheckingVersion,
    FindingPlan,
    AwaitingAnswer { command: &'static str },
    Installing,
    Finished,
}

/// What the caller reports back.
pub enum SetupEvent {
    /// The tool's version, when the tool answered with one.
    VersionFound(Option<String>),
    /// The install plan for this machine.
    PlanFound(InstallPlan),
    /// The line the user typed, or `None` when prompting or reading failed.
    Answered(Option<String>),
    /// How running the install command went, with the error's text.
    Installed(Result<(), String>),
}

/// What the caller does next.
pub enum SetupAction {
    CheckVersion,
    FindInstallPlan,
    AskYesNo { prompt: &'static str },
    RunInstallCommand { command: &'static str },
    Stop,
}

/// The outcome of one step: the new state, the lines to print, the next action.
pub struct SetupStep {
    pub state: SetupState,
    pub lines: Vec<OutputLine>,
    pub action: SetupAction,
}

pub open spec fn installed_text(tool: Tool) -> Seq<char> {
    match tool {
        Tool::CudaToolkit => "CUDA Toolkit이 설치되어 있습니다."@,
        Tool::LlamaCpp => "llama.cpp가 설치되어 있습니다."@,
    }
}

pub open spec fn missing_text(tool: Tool) -> Seq<char> {
    match tool {
        Tool::CudaToolkit => "CUDA Toolkit이 설치되어 있지 않습니다."@,
        Tool::LlamaCpp => "llama.cpp가 설치되어 있지 않습니다."@,
    }
}

pub open spec fn prompt_text(tool: Tool) -> Seq<char> {
    match tool {
        Tool::CudaToolkit => "CUDA Toolkit을 설치할까요? [y/N]: "@,
        Tool::LlamaCpp => "llama.cpp를 설치할까요? [y/N]: "@,
    }
}

/// The state after `event` in `state`.
pub open spec fn next_state(state: SetupState, event: SetupEvent) -> SetupState {
    match (state, event) {
        (SetupState::CheckingVersion, SetupEvent::VersionFound(None)) => SetupState::FindingPlan,
        (SetupState::FindingPlan, SetupEvent::PlanFound(plan)) => match plan.command {
            Some(c) => SetupState::AwaitingAnswer { command: c },
            None => SetupState::Finished,
        },
        (SetupState::AwaitingAnswer { .. }, SetupEvent::Answered(a)) => if a matches Some(t)
            && is_yes_spec(t@) {
            SetupState::Installing
        } else {
            SetupState::Finished
        },
        _ => SetupState::Finished,
    }
}

/// The lines printed on `event` in `state`.
pub open spec fn next_lines(tool: Tool, state: SetupState, event: SetupEvent) -> Seq<(Seq<char>, bool)> {
    match (state, event) {
        (SetupState::CheckingVersion, SetupEvent::VersionFound(Some(v))) => seq![
            (installed_text(tool), false),
            ("버전: "@ + v@, false),
        ],
        (SetupState::CheckingVersion, SetupEvent::VersionFound(None)) => seq![
            (missing_text(tool), false),
        ],
        (SetupState::FindingPlan, SetupEvent::PlanFound(plan)) => match plan.command {
            Some(_) => seq![("설치 명령:"@, false), (plan.message@, false)],
            None => seq![
                ("설치 명령:"@, false),
                (plan.message@, false),
                ("자동 실행할 설치 명령이 없어서 설치를 진행하지 않습니다."@, false),
            ],
        },
        (SetupState::AwaitingAnswer { .. }, SetupEvent::Answered(a)) => if a matches Some(t)
            && is_yes_spec(t@) {
            seq![]
        } else {
            seq![("설치를 건너뜁니다."@, false)]
        },
        (SetupState::Installing, SetupEvent::Installed(Ok(()))) => seq![
            ("설치 명령을 실행했습니다."@, false),
        ],
        (SetupState::Installing, SetupEvent::Installed(Err(e))) => seq![
            ("설치 명령 실행 실패: "@ + e@, true),
        ],
        _ => seq![],
    }
}

/// The action after `event` in `state`.
pub open spec fn next_action(tool: Tool, state: SetupState, event: SetupEvent) -> SetupAction {
    match (state, event) {
        (SetupState::CheckingVersion, SetupEvent::VersionFound(None)) => SetupAction::FindInstallPlan,
        (SetupState::FindingPlan, SetupEvent::PlanFound(plan)) => match plan.command {
            Some(_) => SetupAction::AskYesNo { prompt: prompt_str(tool) },
            None => SetupAction::Stop,
        },
        (SetupState::AwaitingAnswer { command }, SetupEvent::Answered(a)) => if a matches Some(t)
            && is_yes_spec(t@) {
            SetupAction::RunInstallCommand { command }
        } else {
            SetupAction::Stop
        },
        _ => SetupAction::Stop,
    }
}

/// The question asked before installing `tool`.
#[verifier::when_used_as_spec(prompt_str_spec)]
pub fn prompt_str(tool: Tool) -> (r: &'static str)
    ensures
        r == prompt_str_spec(tool),
        r@ == prompt_text(tool),
{
    match tool {
        Tool::CudaToolkit => "CUDA Toolkit을 설치할까요? [y/N]: ",
        Tool::LlamaCpp => "llama.cpp를 설치할까요? [y/N]: ",
    }
}

pub open spec fn prompt_str_spec(tool: Tool) -> &'static str {
    match tool {
        Tool::CudaToolkit => "CUDA Toolkit을 설치할까요? [y/N]: ",
        Tool::LlamaCpp => "llama.cpp를 설치할까요? [y/N]: ",
    }
}

fn text_line(text: &str, to_stderr: bool) -> (l: OutputLine)
    ensures
        line_view(l) == (text@, to_stderr),
{
    OutputLine { text: text.to_owned(), to_stderr }
}

fn joined_line(head: &str, tail: &str, to_stderr: bool) -> (l: OutputLine)
    ensures
        line_view(l) == (head@ + tail@, to_stderr),
{
    let mut text = head.to_owned();
    text.append(tail);
    OutputLine { text, to_stderr }
}

/// The first step: nothing printed yet; the caller checks the tool's version.
pub fn start_setup() -> (r: SetupStep)
    ensures
        r.state == SetupState::CheckingVersion,
        r.lines@.len() == 0,
        r.action == SetupAction::CheckVersion,
{
    SetupStep { state: SetupState::CheckingVersion, lines: Vec::new(), action: SetupAction::CheckVersion }
}

/// One step of the dialogue for `tool`: `event` arrives in `state`.  Events
/// that do not fit the state end the dialogue without output.
pub fn setup_step(tool: Tool, state: SetupState, event: SetupEvent) -> (r: SetupStep)
    ensures
        r.state == next_state(state, event),
        lines_view(r.lines@) == next_lines(tool, state, event),
        r.action == next_action(tool, state, event),
{
    let mut lines: Vec<OutputLine> = Vec::new();
    match (state, event) {
        (SetupState::CheckingVersion, SetupEvent::VersionFound(Some(v))) => {
            let installed = match tool {
                Tool::CudaToolkit => "CUDA Toolkit이 설치되어 있습니다.",
                Tool::LlamaCpp => "llama.cpp가 설치되어 있습니다.",
            };
            lines.push(text_line(installed, false));
            lines.push(joined_line("버전: ", v.as_str(), false));
            assert(lines_view(lines@) =~= next_lines(tool, state, event));
            SetupStep { state: SetupState::Finished, lines, action: SetupAction::Stop }
        },
        (SetupState::CheckingVersion, SetupEvent::VersionFound(None)) => {
            let missing = match tool {
                Tool::CudaToolkit => "CUDA Toolkit이 설치되어 있지 않습니다.",
                Tool::LlamaCpp => "llama.cpp가 설치되어 있지 않습니다.",
            };
            lines.push(text_line(missing, false));
            assert(lines_view(lines@) =~= next_lines(tool, state, event));
            SetupStep { state: SetupState::FindingPlan, lines, action: SetupAction::FindInstallPlan }
        },
        (SetupState::FindingPlan, SetupEvent::PlanFound(plan)) => {
            lines.push(text_line("설치 명령:", false));
            lines.push(text_line(plan.message, false));
            match plan.command {
                Some(c) => {
                    assert(lines_view(lines@) =~= next_lines(tool, state, event));
                    SetupStep {
                        state: SetupState::AwaitingAnswer { command: c },
                        lines,
                        action: SetupAction::AskYesNo { prompt: prompt_str(tool) },
                    }
                },
                None => {
                    lines.push(
                        text_line("자동 실행할 설치 명령이 없어서 설치를 진행하지 않습니다.", false),
                    );
                    assert(lines_view(lines@) =~= next_lines(tool, state, event));
                    SetupStep { state: SetupState::Finished, lines, action: SetupAction::Stop }
                },
            }
        },
        (SetupState::AwaitingAnswer { command }, SetupEvent::Answered(a)) => {
            let yes = match &a {
                Some(t) => is_yes_answer(t.as_str()),
                None => false,
            };
            if yes {
                assert(lines_view(lines@) =~= next_lines(tool, state, event));
                SetupStep {
                    state: SetupState::Installing,
                    lines,
                    action: SetupAction::RunInstallCommand { command },
                }
            } else {
                lines.push(text_line("설치를 건너뜁니다.", false));
                assert(lines_view(lines@) =~= next_lines(tool, state, event));
                SetupStep { state: SetupState::Finished, lines, action: SetupAction::Stop }
            }
        },
        (SetupState::Installing, SetupEvent::Installed(Ok(()))) => {
            lines.push(text_line("설치 명령을 실행했습니다.", false));
            assert(lines_view(lines@) =~= next_lines(tool, state, event));
            SetupStep { state: SetupState::Finished, lines, action: SetupAction::Stop }
        },
        (SetupState::Installing, SetupEvent::Installed(Err(e))) => {
            lines.push(joined_line("설치 명령 실행 실패: ", e.as_str(), true));
            assert(lines_view(lines@) =~= next_lines(tool, state, event));
            SetupStep { state: SetupState::Finished, lines, action: SetupAction::Stop }
        },
        _ => {
            assert(lines_view(lines@) =~= next_lines(tool, state, event));
            SetupStep { state: SetupState::Finished, lines, action: SetupAction::Stop }
        },
    }
}


pub open spec fn state_rank(state: SetupState) -> int {
    match state {
        SetupState::CheckingVersion => 4,
        SetupState::FindingPlan => 3,
        SetupState::AwaitingAnswer { .. } => 2,
        SetupState::Installing => 1,
        SetupState::Finished => 0,
    }
}

/// Law: the install command is run only right after the user answered yes
/// to the question about that very command, with an answer that, trimmed
/// and lowercased, is `y`, `yes`, `예` or `ㅇ`; a blank answer skips it.
pub proof fn lemma_install_only_after_yes(tool: Tool, state: SetupState, event: SetupEvent)
    ensures
        next_action(tool, state, event) matches SetupAction::RunInstallCommand { command } ==> {
            &&& state == (SetupState::AwaitingAnswer { command })
            &&& event matches SetupEvent::Answered(Some(t)) && is_yes_spec(t@) && trim(t@).len() > 0
                && {
                let a = lowercase_of(trim(t@));
                a == "y"@ || a == "yes"@ || a == "예"@ || a == "ㅇ"@
            }
        },
        (event matches SetupEvent::Answered(Some(t)) && trim(t@).len() == 0) ==> next_action(
            tool,
            state,
            event,
        ) == SetupAction::Stop,
{
    if let SetupEvent::Answered(Some(t)) = event {
        lemma_yes_means_one_of_four(t@);
    }
}

/// Law: a tool that reports a version is never installed: the dialogue
/// prints the version and stops.
pub proof fn lemma_found_version_stops(tool: Tool, v: String)
    ensures
        next_action(tool, SetupState::CheckingVersion, SetupEvent::VersionFound(Some(v)))
            == SetupAction::Stop,
        next_state(SetupState::CheckingVersion, SetupEvent::VersionFound(Some(v)))
            == SetupState::Finished,
{
}

/// Law: every step moves the dialogue forward, so it ends after at most
/// four events; once finished it stays finished and asks for nothing.
pub proof fn lemma_dialogue_moves_forward(tool: Tool, state: SetupState, event: SetupEvent)
    ensures
        state_rank(state) > 0 ==> state_rank(next_state(state, event)) < state_rank(state),
        state_rank(state) == 0 ==> next_state(state, event) == SetupState::Finished
            && next_action(tool, state, event) == SetupAction::Stop,
        next_state(state, event) == SetupState::Finished ==> next_action(tool, state, event)
            == SetupAction::Stop,
{
}


/// The error text for an install command that exited unsuccessfully with `status`.
pub fn install_exit_message(status: &str) -> (r: String)
    ensures
        r@ == "종료 코드: "@ + status@,
{
    let mut text = "종료 코드: ".to_owned();
    text.append(status);
    text
}

/// The outcome of running an install command: success, or an error whose
/// text names the exit `status`.
pub fn install_result(success: bool, status: &str) -> (r: Result<(), String>)
    ensures
        success ==> r == Ok::<(), String>(()),
        !success ==> (r matches Err(e) && e@ == "종료 코드: "@ + status@),
{
    if success {
        Ok(())
    } else {
        Err(install_exit_message(status))
    }
}

} // verus!
