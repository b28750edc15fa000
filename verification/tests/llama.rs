use llama_setup::llama_cpp::{
    check_step, chosen_prompt, client_echo, exit_result, prompt_file, ClientInput, client_launch, completion_echo, completion_launch, exit_code_message, install_plan,
    llama_cpp_versions, server_echo, server_launch, start_check, CheckAction, CheckEvent, CheckFailure,
    CheckOptions, CheckState, FailureKind, INSTALL_COMMAND,
};

fn versions() -> Option<(String, String, String)> {
    Some(("b1".to_string(), "b2".to_string(), "b3".to_string()))
}

#[test]
fn all_three_versions_are_needed() {
    let v = llama_cpp_versions(Some("a".to_string()), Some("b".to_string()), Some("c".to_string()));
    assert_eq!(v, Some(("a".to_string(), "b".to_string(), "c".to_string())));
    assert_eq!(llama_cpp_versions(None, Some("b".to_string()), Some("c".to_string())), None);
    assert_eq!(llama_cpp_versions(Some("a".to_string()), Some("b".to_string()), None), None);
}

#[test]
fn installed_llama_cpp_checks_out_quietly_or_verbosely() {
    let quiet = CheckOptions { verbose: false, interactive: true };
    let start = start_check();
    assert!(matches!(start.action, CheckAction::ProbeVersions));
    let step = check_step(quiet, start.state, CheckEvent::Versions(versions()));
    assert!(step.lines.is_empty());
    assert!(matches!(step.action, CheckAction::Finish(Ok(()))));

    let loud = CheckOptions { verbose: true, interactive: false };
    let step = check_step(loud, CheckState::ProbingVersions, CheckEvent::Versions(versions()));
    assert_eq!(
        step.lines,
        vec![
            "llama.cpp is installed.".to_string(),
            "llama-cli version: b1".to_string(),
            "llama-server version: b2".to_string(),
            "llama-completion version: b3".to_string(),
        ]
    );
}

#[test]
fn missing_llama_cpp_without_interaction_fails() {
    let opts = CheckOptions { verbose: true, interactive: false };
    let step = check_step(opts, CheckState::ProbingVersions, CheckEvent::Versions(None));
    assert_eq!(
        step.lines,
        vec![
            "llama-cli, llama-server, and llama-completion are not all installed.".to_string(),
            "Installation command:".to_string(),
            INSTALL_COMMAND.to_string(),
        ]
    );
    match step.action {
        CheckAction::Finish(Err(CheckFailure::Missing { kind, message })) => {
            assert_eq!(kind, FailureKind::NotFound);
            assert_eq!(message, "llama-cli, llama-server, and llama-completion are not installed.");
        }
        _ => panic!("expected a failure"),
    }
}

#[test]
fn missing_llama_cpp_is_installed_and_verified() {
    let opts = CheckOptions { verbose: true, interactive: true };
    let step = check_step(opts, CheckState::ProbingVersions, CheckEvent::Versions(None));
    match step.action {
        CheckAction::AskYesNo { prompt } => assert_eq!(prompt, "Install llama.cpp? [y/N]: "),
        _ => panic!("expected a question"),
    }
    let step = check_step(opts, step.state, CheckEvent::Answered(Some("yes".to_string())));
    match step.action {
        CheckAction::RunInstallCommand { command } => assert_eq!(command, INSTALL_COMMAND),
        _ => panic!("expected the install command"),
    }
    let step = check_step(opts, step.state, CheckEvent::InstallFinished(true));
    assert_eq!(step.lines, vec!["Installation command executed.".to_string()]);
    assert!(matches!(step.action, CheckAction::ProbeVersions));
    assert!(matches!(step.state, CheckState::Verifying));
    let verified = check_step(opts, CheckState::Verifying, CheckEvent::Versions(versions()));
    assert_eq!(verified.lines[0], "llama.cpp installation verified.");
    assert!(matches!(verified.action, CheckAction::Finish(Ok(()))));
    let still_missing = check_step(opts, CheckState::Verifying, CheckEvent::Versions(None));
    match still_missing.action {
        CheckAction::Finish(Err(CheckFailure::Missing { kind, message })) => {
            assert_eq!(kind, FailureKind::NotFound);
            assert_eq!(
                message,
                "llama.cpp installation completed, but llama-cli, llama-server, and llama-completion are still not available."
            );
        }
        _ => panic!("expected a failure"),
    }
}

#[test]
fn declining_or_failing_install_reports_errors() {
    let opts = CheckOptions { verbose: true, interactive: true };
    let asking = CheckState::AwaitingAnswer { command: INSTALL_COMMAND };
    let step = check_step(opts, asking, CheckEvent::Answered(Some("n".to_string())));
    assert_eq!(step.lines, vec!["Skipping installation.".to_string()]);
    match step.action {
        CheckAction::Finish(Err(CheckFailure::Missing { kind, .. })) => {
            assert_eq!(kind, FailureKind::Interrupted)
        }
        _ => panic!("expected a failure"),
    }
    let step = check_step(opts, CheckState::Installing, CheckEvent::InstallFinished(false));
    assert!(matches!(step.action, CheckAction::Finish(Err(CheckFailure::InstallCommand))));
}

#[test]
fn install_plan_runs_what_it_shows() {
    let plan = install_plan();
    assert_eq!(plan.command, Some(INSTALL_COMMAND));
    assert_eq!(plan.message, INSTALL_COMMAND);
    assert!(INSTALL_COMMAND.starts_with("if [ -d llama.cpp ]; then cd llama.cpp; else git clone"));
    assert!(INSTALL_COMMAND.ends_with("cp -f \"$(pwd)/build/bin/llama-completion\" ~/.local/bin/llama-completion"));
}

#[test]
fn launch_command_lines() {
    let c = client_launch("org/m", Some("hi there"));
    assert_eq!(c.program, "llama-cli");
    assert_eq!(c.args, vec!["-hf", "org/m", "-p", "hi there"]);
    assert_eq!(client_echo("org/m"), "llama-cli -hf org/m");
    assert_eq!(client_launch("m", None).args, vec!["-hf", "m"]);

    let c = completion_launch("m", Some("q"));
    assert_eq!(c.program, "llama-completion");
    assert_eq!(
        c.args,
        vec!["-hf", "m", "--no-conversation", "--single-turn", "--simple-io", "--log-disable", "--prompt", "q"]
    );
    assert_eq!(completion_echo("m"), "llama-completion -hf m --single-turn --simple-io --log-disable");

    let s = server_launch("m");
    assert_eq!(s.program, "llama-server");
    assert_eq!(s.args, vec!["-hf", "m"]);
    assert_eq!(server_echo("m"), "llama-server --webui-mcp-proxy -hf m");
    assert_eq!(exit_code_message("exit status: 3"), "Exit code: exit status: 3");
}

#[test]
fn prompt_comes_from_the_text_or_the_file() {
    let given = Some(ClientInput::Prompt("hi".to_string()));
    let from_file = Some(ClientInput::File("p.txt".to_string()));
    assert_eq!(prompt_file(&given), None);
    assert_eq!(prompt_file(&None), None);
    assert_eq!(prompt_file(&from_file), Some("p.txt".to_string()));
    assert_eq!(chosen_prompt(given, Some("ignored".to_string())), Some("hi".to_string()));
    assert_eq!(chosen_prompt(from_file, Some("file text".to_string())), Some("file text".to_string()));
    assert_eq!(chosen_prompt(None, None), None);
}

#[test]
fn exit_status_decides_the_run_result() {
    assert_eq!(exit_result(true, "exit status: 0"), Ok(()));
    assert_eq!(exit_result(false, "exit status: 2"), Err("Exit code: exit status: 2".to_string()));
}
