use llama_setup::check_cuda_toolkit::{install_plan as cuda_install_plan, probe_order, PackageManager};
use llama_setup::check_llama_cpp::{install_plan as llama_check_plan, llama_cpp_version, version_programs};
use llama_setup::setup::{
    install_exit_message, install_result, is_yes_answer, setup_step, start_setup, InstallPlan, SetupAction,
    SetupEvent, SetupState, Tool,
};

fn texts(step: &llama_setup::setup::SetupStep) -> Vec<(String, bool)> {
    step.lines.iter().map(|l| (l.text.clone(), l.to_stderr)).collect()
}

#[test]
fn yes_answers() {
    for yes in ["y", "Y", " yes\n", "YeS", "예", "ㅇ\r\n"] {
        assert!(is_yes_answer(yes), "{yes:?}");
    }
    for no in ["", "n", "no", "yess", "y es", "네"] {
        assert!(!is_yes_answer(no), "{no:?}");
    }
}

#[test]
fn cuda_plan_follows_the_first_package_manager_found() {
    let plan = cuda_install_plan(&vec![false, true, true]);
    assert_eq!(plan.message, "sudo dnf install -y cuda-toolkit");
    assert_eq!(plan.command, Some("sudo dnf install -y cuda-toolkit"));
    let plan = cuda_install_plan(&vec![false, false, false, true]);
    assert_eq!(plan.command, Some("sudo pacman -S --noconfirm cuda"));
    let plan = cuda_install_plan(&vec![true]);
    assert_eq!(plan.command, Some("sudo apt update && sudo apt install -y nvidia-cuda-toolkit"));
    let plan = cuda_install_plan(&vec![false, false, false, false, false, true]);
    assert_eq!(plan.command, Some("brew install --cask cuda"));
}

#[test]
fn cuda_plan_without_package_manager_runs_nothing() {
    let plan = cuda_install_plan(&vec![false; 6]);
    assert_eq!(plan.command, None);
    assert_eq!(
        plan.message,
        "설치 명령을 자동으로 결정할 수 없습니다. 사용 중인 배포판의 CUDA Toolkit 설치 명령을 확인해 주세요."
    );
    assert_eq!(cuda_install_plan(&Vec::new()).command, None);
    // results past the six probes do not count
    assert_eq!(cuda_install_plan(&vec![false, false, false, false, false, false, true]).command, None);
}

#[test]
fn package_managers_are_probed_in_order() {
    let order = probe_order();
    let names: Vec<(&str, &str)> = order.iter().map(|p| (p.program(), p.probe_argument())).collect();
    assert_eq!(
        names,
        vec![
            ("apt", "--version"),
            ("dnf", "--version"),
            ("yum", "--version"),
            ("pacman", "-V"),
            ("zypper", "--version"),
            ("brew", "--version"),
        ]
    );
    assert_eq!(PackageManager::Zypper.cuda_plan().command, Some("sudo zypper install -y cuda-toolkit"));
    assert_eq!(PackageManager::Yum.cuda_plan().command, Some("sudo yum install -y cuda-toolkit"));
}

#[test]
fn llama_check_helpers() {
    assert_eq!(version_programs(), ("llama-cli", "llama"));
    assert_eq!(llama_cpp_version(Some("1".to_string()), Some("2".to_string())), Some("1".to_string()));
    assert_eq!(llama_cpp_version(None, Some("2".to_string())), Some("2".to_string()));
    assert_eq!(llama_cpp_version(None, None), None);
    let plan = llama_check_plan();
    assert_eq!(plan.command, Some(plan.message));
    assert!(plan.message.starts_with("git clone https://github.com/ggerganov/llama.cpp.git"));
}

#[test]
fn found_version_is_reported_and_nothing_installed() {
    let start = start_setup();
    assert!(matches!(start.action, SetupAction::CheckVersion));
    let step = setup_step(Tool::CudaToolkit, start.state, SetupEvent::VersionFound(Some("12.4".to_string())));
    assert_eq!(
        texts(&step),
        vec![
            ("CUDA Toolkit이 설치되어 있습니다.".to_string(), false),
            ("버전: 12.4".to_string(), false),
        ]
    );
    assert!(matches!(step.action, SetupAction::Stop));
    assert!(matches!(step.state, SetupState::Finished));
}

#[test]
fn missing_tool_is_installed_after_yes() {
    let step = setup_step(Tool::LlamaCpp, SetupState::CheckingVersion, SetupEvent::VersionFound(None));
    assert_eq!(texts(&step), vec![("llama.cpp가 설치되어 있지 않습니다.".to_string(), false)]);
    assert!(matches!(step.action, SetupAction::FindInstallPlan));
    let plan = InstallPlan { message: "make it", command: Some("make it") };
    let step = setup_step(Tool::LlamaCpp, step.state, SetupEvent::PlanFound(plan));
    assert_eq!(
        texts(&step),
        vec![("설치 명령:".to_string(), false), ("make it".to_string(), false)]
    );
    match step.action {
        SetupAction::AskYesNo { prompt } => assert_eq!(prompt, "llama.cpp를 설치할까요? [y/N]: "),
        _ => panic!("expected a question"),
    }
    let step = setup_step(Tool::LlamaCpp, step.state, SetupEvent::Answered(Some("Y\n".to_string())));
    assert!(step.lines.is_empty());
    match step.action {
        SetupAction::RunInstallCommand { command } => assert_eq!(command, "make it"),
        _ => panic!("expected the install command"),
    }
    let failed = setup_step(Tool::LlamaCpp, SetupState::Installing, SetupEvent::Installed(Err("종료 코드: 2".to_string())));
    assert_eq!(texts(&failed), vec![("설치 명령 실행 실패: 종료 코드: 2".to_string(), true)]);
    let done = setup_step(Tool::LlamaCpp, step.state, SetupEvent::Installed(Ok(())));
    assert_eq!(texts(&done), vec![("설치 명령을 실행했습니다.".to_string(), false)]);
    assert!(matches!(done.action, SetupAction::Stop));
}

#[test]
fn refusing_or_no_command_skips_installing() {
    let asking = SetupState::AwaitingAnswer { command: "x" };
    let step = setup_step(Tool::CudaToolkit, asking, SetupEvent::Answered(Some("n".to_string())));
    assert_eq!(texts(&step), vec![("설치를 건너뜁니다.".to_string(), false)]);
    assert!(matches!(step.action, SetupAction::Stop));
    let asking = SetupState::AwaitingAnswer { command: "x" };
    let step = setup_step(Tool::CudaToolkit, asking, SetupEvent::Answered(None));
    assert!(matches!(step.action, SetupAction::Stop));

    let plan = InstallPlan { message: "look it up", command: None };
    let step = setup_step(Tool::CudaToolkit, SetupState::FindingPlan, SetupEvent::PlanFound(plan));
    assert_eq!(
        texts(&step),
        vec![
            ("설치 명령:".to_string(), false),
            ("look it up".to_string(), false),
            ("자동 실행할 설치 명령이 없어서 설치를 진행하지 않습니다.".to_string(), false),
        ]
    );
    assert!(matches!(step.action, SetupAction::Stop));
}

#[test]
fn events_out_of_turn_end_the_dialogue() {
    let step = setup_step(Tool::CudaToolkit, SetupState::CheckingVersion, SetupEvent::Answered(Some("y".to_string())));
    assert!(step.lines.is_empty());
    assert!(matches!(step.action, SetupAction::Stop));
}

#[test]
fn install_exit_message_names_the_status() {
    assert_eq!(install_exit_message("exit status: 1"), "종료 코드: exit status: 1");
}

#[test]
fn install_status_decides_the_install_result() {
    assert_eq!(install_result(true, "exit status: 0"), Ok(()));
    assert_eq!(install_result(false, "exit status: 1"), Err("종료 코드: exit status: 1".to_string()));
}
