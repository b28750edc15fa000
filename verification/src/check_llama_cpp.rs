//! Checking for llama.cpp through its command-line programs.
use vstd::prelude::*;
use crate::setup::InstallPlan;

verus! {

/// The programs asked for their version, in this order: the second is asked
/// only when the first yields no version.
pub fn version_programs() -> (r: (&'static str, &'static str))
    ensures
        r == ("llama-cli", "llama"),
{
    ("llama-cli", "llama")
}

/// The llama.cpp version: the one `llama-cli` reports, else the one `llama`
/// reports.
pub fn llama_cpp_version(cli_version: Option<String>, llama_version: Option<String>) -> (r: Option<
    String,
>)
    ensures
        r == (match cli_version {
            Some(v) => Some(v),
            None => llama_version,
        }),
{
    match cli_version {
        Some(v) => Some(v),
        None => llama_version,
    }
}

pub open spec fn install_plan_spec() -> InstallPlan {
    InstallPlan {
        message: "git clone https://github.com/ggerganov/llama.cpp.git && cd llama.cpp && cmake -B build && cmake --build build -j && mkdir -p ~/.local/bin && ln -sf \"$(pwd)/build/bin/llama-cli\" ~/.local/bin/llama-cli",
        command: Some(
            "git clone https://github.com/ggerganov/llama.cpp.git && cd llama.cpp && cmake -B build && cmake --build build -j && mkdir -p ~/.local/bin && ln -sf \"$(pwd)/build/bin/llama-cli\" ~/.local/bin/llama-cli",
        ),
    }
}

/// The plan that builds llama.cpp from source and links `llama-cli` into
/// `~/.local/bin`; the command shown is the command run.
pub fn install_plan() -> (r: InstallPlan)
    ensures
        r == install_plan_spec(),
        r.command == Some(r.message),
{
    InstallPlan {
        message: "git clone https://github.com/ggerganov/llama.cpp.git && cd llama.cpp && cmake -B build && cmake --build build -j && mkdir -p ~/.local/bin && ln -sf \"$(pwd)/build/bin/llama-cli\" ~/.local/bin/llama-cli",
        command: Some(
            "git clone https://github.com/ggerganov/llama.cpp.git && cd llama.cpp && cmake -B build && cmake --build build -j && mkdir -p ~/.local/bin && ln -sf \"$(pwd)/build/bin/llama-cli\" ~/.local/bin/llama-cli",
        ),
    }
}

} // verus!
