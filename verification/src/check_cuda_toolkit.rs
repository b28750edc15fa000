//! Checking for the CUDA toolkit: reading its release from `nvcc --version`
//! and choosing the install command for the package manager at hand.
use vstd::prelude::*;
use crate::setup::InstallPlan;
use crate::text::{
    chars_of, find_exec, lemma_back_class, lemma_find_from, lemma_skip_class, find_from,
    skip_class, skip_class_exec, substring, trim_range, trim_range_exec, white_space, CharClass,
};

verus! {

/// The release that `nvcc --version` reports: the text after the first
/// "release " up to the next `,` (or the end), trimmed.
pub open spec fn cuda_version_spec(output: Seq<char>) -> Option<Seq<char>> {
    match find_from(output, "release "@, 0) {
        None => None,
        Some(k) => {
            let start = k + "release "@.len();
            let end = skip_class(output, start, output.len() as int, CharClass::NotComma);
            let t = trim_range(output, start, end);
            Some(output.subrange(t.0, t.1))
        },
    }
}

/// The release that `nvcc --version` reports in `output`.
pub fn parse_cuda_version(output: &str) -> (r: Option<String>)
    ensures
        r matches Some(v) ==> cuda_version_spec(output@) == Some(v@),
        r is None ==> cuda_version_spec(output@) is None,
{
    let s = chars_of(output);
    let marker = chars_of("release ");
    match find_exec(&s, &marker, 0) {
        None => None,
        Some(k) => {
            proof {
                lemma_find_from(s@, marker@, 0);
                assert(k + marker@.len() <= s@.len());
            }
            let start = k + marker.len();
            let end = skip_class_exec(&s, start, s.len(), CharClass::NotComma);
            let (a, b) = trim_range_exec(&s, start, end);
            Some(substring(output, a, b))
        },
    }
}

/// Law: a release read from `nvcc` output holds no `,` and starts and ends
/// with a character that is not white space.
pub proof fn lemma_cuda_version_shape(output: Seq<char>)
    ensures
        cuda_version_spec(output) matches Some(v) ==> {
            &&& !v.contains(',')
            &&& v.len() > 0 ==> !white_space(v[0]) && !white_space(v.last())
        },
{
    if let Some(k) = find_from(output, "release "@, 0) {
        lemma_find_from(output, "release "@, 0);
        let start = k + "release "@.len();
        let end = skip_class(output, start, output.len() as int, CharClass::NotComma);
        lemma_skip_class(output, start, output.len() as int, CharClass::NotComma);
        let t = trim_range(output, start, end);
        lemma_skip_class(output, start, end, CharClass::Space);
        lemma_back_class(output, t.0, end, CharClass::Space);
        let v = output.subrange(t.0, t.1);
        assert forall|i: int| 0 <= i < v.len() implies v[i] != ',' by {
            assert(v[i] == output[t.0 + i]);
        }
        if v.len() > 0 {
            assert(v[0] == output[t.0]);
            assert(v.last() == output[t.1 - 1]);
        }
    }
}

/// The package managers that are probed, in this order.
#[derive(Clone, Copy, Debug, PartialEq, Eq, Structural)]
pub enum PackageManager {
    Apt,
    Dnf,
    Yum,
    Pacman,
    Zypper,
    Brew,
}

/// The package managers in the order they are probed.
pub open spec fn probe_order_spec() -> Seq<PackageManager> {
    seq![
        PackageManager::Apt,
        PackageManager::Dnf,
        PackageManager::Yum,
        PackageManager::Pacman,
        PackageManager::Zypper,
        PackageManager::Brew,
    ]
}

/// The package managers in the order they are probed.
pub fn probe_order() -> (r: Vec<PackageManager>)
    ensures
        r@ == probe_order_spec(),
{
    let r = vec![
        PackageManager::Apt,
        PackageManager::Dnf,
        PackageManager::Yum,
        PackageManager::Pacman,
        PackageManager::Zypper,
        PackageManager::Brew,
    ];
    assert(r@ =~= probe_order_spec());
    r
}

impl PackageManager {
    /// The program run to see whether the package manager is there.
    pub fn program(&self) -> (r: &'static str)
        ensures
            r == program_spec(*self),
    {
        match self {
            PackageManager::Apt => "apt",
            PackageManager::Dnf => "dnf",
            PackageManager::Yum => "yum",
            PackageManager::Pacman => "pacman",
            PackageManager::Zypper => "zypper",
            PackageManager::Brew => "brew",
        }
    }

    /// The argument given to that program when probing it.
    pub fn probe_argument(&self) -> (r: &'static str)
        ensures
            r == probe_argument_spec(*self),
    {
        match self {
            PackageManager::Pacman => "-V",
            _ => "--version",
        }
    }

    /// The plan that installs the CUDA toolkit with this package manager.
    pub fn cuda_plan(&self) -> (r: InstallPlan)
        ensures
            r == cuda_plan_spec(*self),
    {
        match self {
            PackageManager::Apt => InstallPlan {
                message: "sudo apt update && sudo apt install -y nvidia-cuda-toolkit",
                command: Some("sudo apt update && sudo apt install -y nvidia-cuda-toolkit"),
            },
            PackageManager::Dnf => InstallPlan {
                message: "sudo dnf install -y cuda-toolkit",
                command: Some("sudo dnf install -y cuda-toolkit"),
            },
            PackageManager::Yum => InstallPlan {
                message: "sudo yum install -y cuda-toolkit",
                command: Some("sudo yum install -y cuda-toolkit"),
            },
            PackageManager::Pacman => InstallPlan {
                message: "sudo pacman -S --noconfirm cuda",
                command: Some("sudo pacman -S --noconfirm cuda"),
            },
            PackageManager::Zypper => InstallPlan {
                message: "sudo zypper install -y cuda-toolkit",
                command: Some("sudo zypper install -y cuda-toolkit"),
            },
            PackageManager::Brew => InstallPlan {
                message: "brew install --cask cuda",
                command: Some("brew install --cask cuda"),
            },
        }
    }
}

pub open spec fn program_spec(pm: PackageManager) -> &'static str {
    match pm {
        PackageManager::Apt => "apt",
        PackageManager::Dnf => "dnf",
        PackageManager::Yum => "yum",
        PackageManager::Pacman => "pacman",
        PackageManager::Zypper => "zypper",
        PackageManager::Brew => "brew",
    }
}

pub open spec fn probe_argument_spec(pm: PackageManager) -> &'static str {
    match pm {
        PackageManager::Pacman => "-V",
        _ => "--version",
    }
}

pub open spec fn cuda_plan_spec(pm: PackageManager) -> InstallPlan {
    match pm {
        PackageManager::Apt => InstallPlan {
            message: "sudo apt update && sudo apt install -y nvidia-cuda-toolkit",
            command: Some("sudo apt update && sudo apt install -y nvidia-cuda-toolkit"),
        },
        PackageManager::Dnf => InstallPlan {
            message: "sudo dnf install -y cuda-toolkit",
            command: Some("sudo dnf install -y cuda-toolkit"),
        },
        PackageManager::Yum => InstallPlan {
            message: "sudo yum install -y cuda-toolkit",
            command: Some("sudo yum install -y cuda-toolkit"),
        },
        PackageManager::Pacman => InstallPlan {
            message: "sudo pacman -S --noconfirm cuda",
            command: Some("sudo pacman -S --noconfirm cuda"),
        },
        PackageManager::Zypper => InstallPlan {
            message: "sudo zypper install -y cuda-toolkit",
            command: Some("sudo zypper install -y cuda-toolkit"),
        },
        PackageManager::Brew => InstallPlan {
            message: "brew install --cask cuda",
            command: Some("brew install --cask cuda"),
        },
    }
}

/// The plan when no known package manager answered.
pub open spec fn no_plan_spec() -> InstallPlan {
    InstallPlan {
        message: "설치 명령을 자동으로 결정할 수 없습니다. 사용 중인 배포판의 CUDA Toolkit 설치 명령을 확인해 주세요.",
        command: None,
    }
}

/// The first position, among the probed ones, whose package manager answered.
pub open spec fn first_answering(found: Seq<bool>) -> Option<int> {
    if exists|i: int| 0 <= i < found.len() && i < 6 && found[i] {
        Some(choose|i: int| 0 <= i < found.len() && i < 6 && found[i] && forall|j: int| 0 <= j < i ==> !found[j])
    } else {
        None
    }
}

/// The install plan, given the probe results `found` in probe order
/// (`found[i]` tells whether `probe_order()[i]` answered; results past the
/// last probe are ignored): the plan of the first package manager that
/// answered, or a note that no command could be chosen.
pub fn install_plan(found: &Vec<bool>) -> (r: InstallPlan)
    ensures
        r == plan_for_probes(found@),
{
    let order = probe_order();
    let mut i: usize = 0;
    while i < found.len() && i < order.len()
        invariant
            order@ == probe_order_spec(),
            i <= 6,
            forall|j: int| 0 <= j < i ==> j < found.len() && !found@[j],
        decreases 6 - i,
    {
        if found[i] {
            proof {
                assert(forall|j: int| 0 <= j < i ==> !found@[j]);
                let w = choose|w: int| 0 <= w < found@.len() && w < 6 && found@[w] && forall|j: int|
                    0 <= j < w ==> !found@[j];
                assert(0 <= i < found@.len() && i < 6 && found@[i as int] && forall|j: int|
                    0 <= j < i ==> !found@[j]);
                if w < i {
                } else if w > i {
                    assert(!found@[i as int]);
                }
            }
            return order[i].cuda_plan();
        }
        i = i + 1;
    }
    InstallPlan {
        message: "설치 명령을 자동으로 결정할 수 없습니다. 사용 중인 배포판의 CUDA Toolkit 설치 명령을 확인해 주세요.",
        command: None,
    }
}


/// The plan that `install_plan` gives for the probe results `found`.
pub open spec fn plan_for_probes(found: Seq<bool>) -> InstallPlan {
    match first_answering(found) {
        Some(i) => cuda_plan_spec(probe_order_spec()[i]),
        None => no_plan_spec(),
    }
}

/// Law: the command run is always the command shown, and there is one
/// exactly when some probed package manager answered.
pub proof fn lemma_cuda_plan_runs_what_it_shows(found: Seq<bool>)
    ensures
        plan_for_probes(found).command is Some ==> plan_for_probes(found).command == Some(
            plan_for_probes(found).message,
        ),
        plan_for_probes(found).command is None <==> first_answering(found) is None,
{
    if let Some(i) = first_answering(found) {
        let w = choose|w: int|
            0 <= w < found.len() && w < 6 && found[w] && forall|j: int| 0 <= j < w ==> !found[j];
        assert(0 <= w < 6);
    }
}

/// `word` occurs somewhere in `text`.
pub open spec fn mentions(text: Seq<char>, word: Seq<char>) -> bool {
    exists|k: int| 0 <= k && k + word.len() <= text.len() && #[trigger] text.subrange(k, k + word.len()) == word
}

/// Law: when the package manager probed at position `i` is the first that
/// answered, the plan is that manager's plan.
pub proof fn lemma_plan_of_first_answering(found: Seq<bool>, i: int)
    requires
        0 <= i < found.len(),
        i < probe_order_spec().len(),
        found[i],
        forall|j: int| 0 <= j < i ==> !found[j],
    ensures
        plan_for_probes(found) == cuda_plan_spec(probe_order_spec()[i]),
{
    assert(0 <= i < found.len() && i < 6 && found[i] && forall|j: int| 0 <= j < i ==> !found[j]);
    let w = choose|w: int|
        0 <= w < found.len() && w < 6 && found[w] && forall|j: int| 0 <= j < w ==> !found[j];
    if w < i {
        assert(!found[w]);
    } else if w > i {
        assert(!found[i]);
    }
}

/// Law: when no probed package manager answered, no command is run.
pub proof fn lemma_no_manager_no_command(found: Seq<bool>)
    requires
        forall|j: int| 0 <= j < found.len() && j < probe_order_spec().len() ==> !found[j],
    ensures
        plan_for_probes(found) == no_plan_spec(),
        plan_for_probes(found).command is None,
{
}

/// Law: the plan of each package manager runs a command that names that
/// manager's program, and shows the command it runs.
pub proof fn lemma_cuda_plan_names_its_program(pm: PackageManager)
    ensures
        cuda_plan_spec(pm).command == Some(cuda_plan_spec(pm).message),
        mentions(cuda_plan_spec(pm).message@, program_spec(pm)@),
{
    let m = cuda_plan_spec(pm).message;
    let w = program_spec(pm);
    match pm {
        PackageManager::Apt => {
            reveal_strlit("sudo apt update && sudo apt install -y nvidia-cuda-toolkit");
            reveal_strlit("apt");
            assert(m@.subrange(5, 8) =~= w@);
            assert(m@.subrange(5int, 5int + w@.len()) == w@);
        },
        PackageManager::Dnf => {
            reveal_strlit("sudo dnf install -y cuda-toolkit");
            reveal_strlit("dnf");
            assert(m@.subrange(5, 8) =~= w@);
            assert(m@.subrange(5int, 5int + w@.len()) == w@);
        },
        PackageManager::Yum => {
            reveal_strlit("sudo yum install -y cuda-toolkit");
            reveal_strlit("yum");
            assert(m@.subrange(5, 8) =~= w@);
            assert(m@.subrange(5int, 5int + w@.len()) == w@);
        },
        PackageManager::Pacman => {
            reveal_strlit("sudo pacman -S --noconfirm cuda");
            reveal_strlit("pacman");
            assert(m@.subrange(5, 11) =~= w@);
            assert(m@.subrange(5int, 5int + w@.len()) == w@);
        },
        PackageManager::Zypper => {
            reveal_strlit("sudo zypper install -y cuda-toolkit");
            reveal_strlit("zypper");
            assert(m@.subrange(5, 11) =~= w@);
            assert(m@.subrange(5int, 5int + w@.len()) == w@);
        },
        PackageManager::Brew => {
            reveal_strlit("brew install --cask cuda");
            reveal_strlit("brew");
            assert(m@.subrange(0, 4) =~= w@);
            assert(m@.subrange(0int, 0int + w@.len()) == w@);
        },
    }
}

/// Law: each package manager is probed once, and each is probed through a
/// program of its own.
pub proof fn lemma_probes_are_distinct()
    ensures
        forall|i: int, j: int|
            0 <= i < j < probe_order_spec().len() ==> probe_order_spec()[i] != probe_order_spec()[j],
        forall|a: PackageManager, b: PackageManager| a != b ==> program_spec(a)@ != program_spec(b)@,
{
    reveal_strlit("apt");
    reveal_strlit("dnf");
    reveal_strlit("yum");
    reveal_strlit("pacman");
    reveal_strlit("zypper");
    reveal_strlit("brew");
    assert forall|a: PackageManager, b: PackageManager| a != b implies program_spec(a)@ != program_spec(b)@ by {
        let x = program_spec(a)@;
        let y = program_spec(b)@;
        if x.len() == y.len() {
            if x[0] == y[0] {
                assert(x[1] != y[1] || x[2] != y[2]);
            }
            assert(x[0] != y[0] || x[1] != y[1] || x[2] != y[2]);
        }
    }
}

} // verus!
