use llama_setup::text::is_whitespace;
use llama_setup::check_cuda_toolkit::parse_cuda_version;
use llama_setup::version::{
    extract_version, extract_version_after_label, extract_version_from_line,
    extract_version_from_lowered_line, first_version_token, looks_like_version,
    try_extract_version, try_extract_version_from_line,
};

fn some(s: &str) -> Option<String> {
    Some(s.to_string())
}

#[test]
fn cuda_release_is_read_up_to_the_comma() {
    let out = "nvcc: NVIDIA (R) Cuda compiler driver\nCopyright (c) 2005-2024 NVIDIA Corporation\nCuda compilation tools, release 12.4, V12.4.131\nBuild cuda_12.4.r12.4/compiler.34097967_0\n";
    assert_eq!(parse_cuda_version(out), some("12.4"));
}

#[test]
fn cuda_release_without_comma_runs_to_the_end_and_is_trimmed() {
    assert_eq!(parse_cuda_version("release   11.8  \n"), some("11.8"));
    assert_eq!(parse_cuda_version("release ,"), some(""));
}

#[test]
fn cuda_output_without_release_gives_nothing() {
    assert_eq!(parse_cuda_version("command not found"), None);
    assert_eq!(parse_cuda_version(""), None);
    assert_eq!(parse_cuda_version("release"), None);
}

#[test]
fn version_label_with_colon() {
    let out = "version: 4589 (9a2b8c1)\nbuilt with cc (GCC) 13.2.0 for x86_64-linux-gnu\n";
    assert_eq!(extract_version(out), some("4589"));
}

#[test]
fn version_label_with_equals_and_leading_v() {
    assert_eq!(extract_version("Version=v2.0.1"), some("2.0.1"));
    assert_eq!(extract_version("VERSION vvv3.1"), some("3.1"));
}

#[test]
fn version_label_without_digit_falls_back_to_version_like_token() {
    assert_eq!(extract_version("version unknown build (1.5.0)"), some("1.5.0"));
}

#[test]
fn line_without_label_uses_first_version_like_token() {
    assert_eq!(extract_version("llama tool v0.9.2 ready"), some("0.9.2"));
    assert_eq!(extract_version("tool 42 only"), None);
}

#[test]
fn first_lines_without_versions_are_skipped() {
    let out = "\n   \nwelcome\r\nrelease candidate 7.1.3\n";
    assert_eq!(extract_version(out), some("7.1.3"));
}

#[test]
fn no_version_anywhere() {
    assert_eq!(extract_version(""), None);
    assert_eq!(extract_version("\n\n"), None);
    assert_eq!(extract_version("no numbers here"), None);
}

#[test]
fn reading_fails_where_the_lowercase_form_shifts_bytes() {
    // 'İ' lowercases to two characters, three bytes instead of two, so the
    // byte offset after "version" lands past the end of the line.
    assert_eq!(try_extract_version("İversion"), None);
    assert_eq!(try_extract_version_from_line("İversion"), None);
    // Here the offset falls inside 'é'.
    assert_eq!(try_extract_version("İversioné"), None);
    // Here it lands on a character boundary, right before "1.2".
    assert_eq!(try_extract_version("İversion 1.2"), Some(some("1.2")));
    assert_eq!(try_extract_version("ok 1.0"), Some(some("1.0")));
}

#[test]
fn line_reading_matches_its_parts() {
    assert_eq!(extract_version_from_line("version: 1.2.3"), some("1.2.3"));
    assert_eq!(extract_version_from_line("build 5.6 x"), some("5.6"));
    assert_eq!(
        extract_version_from_lowered_line("Version: 8.0", "version: 8.0"),
        some("8.0")
    );
    assert_eq!(try_extract_version_from_line("nothing"), Some(None));
}

#[test]
fn after_label_needs_a_digit_in_the_first_token() {
    assert_eq!(extract_version_after_label(": 12"), some("12"));
    assert_eq!(extract_version_after_label("==:  (v1-rc2)!  more"), some("1-rc2"));
    assert_eq!(extract_version_after_label("   "), None);
    assert_eq!(extract_version_after_label(": abc 1.0"), None);
    assert_eq!(extract_version_after_label(": ()"), None);
}

#[test]
fn first_version_token_needs_digit_and_dot() {
    assert_eq!(first_version_token("a 12 1.2 b"), some("1.2"));
    assert_eq!(first_version_token("(v4.5.6),"), some("4.5.6"));
    assert_eq!(first_version_token("no version"), None);
    assert_eq!(first_version_token(""), None);
}

#[test]
fn version_like_tokens() {
    assert!(looks_like_version("1.0"));
    assert!(looks_like_version("v.3"));
    assert!(!looks_like_version("10"));
    assert!(!looks_like_version("a.b"));
    assert!(!looks_like_version(""));
}

#[test]
fn later_lines_cannot_change_a_version_already_read() {
    let first = "tool version: 1.0\n";
    assert_eq!(extract_version(first), some("1.0"));
    let longer = format!("{first}version 2.0\nv3.0\n");
    assert_eq!(extract_version(&longer), some("1.0"));
    assert_eq!(try_extract_version("İversion\n1.2"), None);
}

#[test]
fn white_space_agrees_with_std_on_every_char() {
    for code in 0u32..=0x10FFFF {
        if let Some(c) = char::from_u32(code) {
            assert_eq!(is_whitespace(c), c.is_whitespace(), "U+{code:04X}");
        }
    }
    assert!(is_whitespace('\u{3000}'));
    assert!(!is_whitespace('越'));
    assert!(!is_whitespace('\u{200B}'));
}

#[test]
fn unicode_spaces_separate_version_tokens() {
    assert_eq!(first_version_token("build\u{3000}v2.5\u{2003}x"), some("2.5"));
    assert_eq!(parse_cuda_version("release\u{A0}\u{A0}12.4\u{2028}, V"), None);
    assert_eq!(parse_cuda_version("Cuda compilation tools, release \u{2009}12.4\u{2009}, V12.4.131"), some("12.4"));
}
