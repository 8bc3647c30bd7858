use nomark::cli::{
    batch_target, choose_mode, classify_input, is_hidden_name, is_markdown_extension,
    norg_file_name, require_files, Args, BatchTarget, CliError, InputAction, Mode,
};

fn args(input: &[&str], output: Option<&str>, dir: Option<&str>, overwrite: bool) -> Args {
    Args {
        input: input.iter().map(|s| s.to_string()).collect(),
        output: output.map(|s| s.to_string()),
        dir: dir.map(|s| s.to_string()),
        recursive: false,
        overwrite,
        stdout: false,
    }
}

#[test]
fn no_input_reads_stdin() {
    assert_eq!(choose_mode(&args(&[], None, None, false)).unwrap(), Mode::Stdin);
}

#[test]
fn output_with_one_input() {
    assert_eq!(choose_mode(&args(&["a.md"], Some("a.norg"), None, false)).unwrap(), Mode::SingleOutput);
}

#[test]
fn output_with_two_inputs_is_refused() {
    let err = choose_mode(&args(&["a.md", "b.md"], Some("x"), None, false)).unwrap_err();
    assert!(matches!(err, CliError::OutputNeedsOneInput));
    assert_eq!(err.message(), "-o requires exactly one input file");
}

#[test]
fn batch_targets() {
    assert_eq!(choose_mode(&args(&["a.md"], None, None, false)).unwrap(), Mode::Batch);
    assert_eq!(batch_target(&args(&["a.md"], None, Some("out"), true)), BatchTarget::InPlace);
    assert_eq!(batch_target(&args(&["a.md"], None, Some("out"), false)), BatchTarget::Directory);
    assert_eq!(batch_target(&args(&["a.md"], None, None, false)), BatchTarget::Stdout);
}

#[test]
fn stdout_flag_forces_stdout() {
    let mut a = args(&["a.md"], None, Some("out"), true);
    a.stdout = true;
    assert_eq!(batch_target(&a), BatchTarget::Stdout);
    let mut b = args(&["a.md"], None, Some("out"), false);
    b.stdout = true;
    assert_eq!(batch_target(&b), BatchTarget::Stdout);
}

#[test]
fn classify_inputs() {
    assert_eq!(classify_input("d", true, false, true).unwrap(), InputAction::Walk);
    assert_eq!(classify_input("f.md", false, true, false).unwrap(), InputAction::File);
    let dir = classify_input("docs", true, false, false).unwrap_err();
    assert_eq!(dir.message(), "docs is a directory (use -r to recurse)");
    let missing = classify_input("gone.md", false, false, true).unwrap_err();
    assert_eq!(missing.message(), "gone.md not found");
}

#[test]
fn no_files_found() {
    let err = require_files(0).unwrap_err();
    assert_eq!(err.message(), "no input files found");
    assert!(require_files(2).is_ok());
}

#[test]
fn names_and_extensions() {
    assert!(is_hidden_name(".git"));
    assert!(!is_hidden_name("notes"));
    assert!(!is_hidden_name(""));
    assert!(is_markdown_extension("md"));
    assert!(!is_markdown_extension("markdown"));
    assert!(!is_markdown_extension("MD"));
    assert_eq!(norg_file_name("readme"), "readme.norg");
}
