//! The command line: its arguments and the decisions the program makes from
//! them. Reading files, walking directories and writing output are left to
//! the program; what it does with each input is decided here.
use crate::meta::push_str;
use crate::text::{push_all, str_chars, string_from_chars};
use vstd::prelude::*;

verus! {

/// The command-line arguments.
pub struct Args {
    /// Input files or directories (none: read standard input).
    pub input: Vec<String>,
    /// Output file (single input only).
    pub output: Option<String>,
    /// Output directory (batch mode).
    pub dir: Option<String>,
    /// Recurse into directories.
    pub recursive: bool,
    /// Overwrite input files in place (`.md` becomes `.norg`).
    pub overwrite: bool,
    /// Force output to standard output (batch mode).
    pub stdout: bool,
}

/// Why the program stops without converting.
#[derive(Debug)]
pub enum CliError {
    /// `-o` was given with other than exactly one input.
    OutputNeedsOneInput,
    /// An input is a directory and `-r` was not given.
    IsDirectory(String),
    /// An input does not exist.
    NotFound(String),
    /// No Markdown file was found among the inputs.
    NoInputFiles,
}

/// What the program converts, and where the result goes.
#[derive(Debug, PartialEq, Eq, Clone, Copy)]
pub enum Mode {
    /// Convert standard input to standard output.
    Stdin,
    /// Convert the one input file to the output file.
    SingleOutput,
    /// Convert every input file (see `BatchTarget`).
    Batch,
}

/// Where each file of a batch goes.
#[derive(Debug, PartialEq, Eq, Clone, Copy)]
pub enum BatchTarget {
    /// Beside its input, with the extension `.norg`.
    InPlace,
    /// Into the output directory, as `<stem>.norg`.
    Directory,
    /// To standard output.
    Stdout,
}

/// How an input path is handled.
#[derive(Debug, PartialEq, Eq, Clone, Copy)]
pub enum InputAction {
    /// Walk the directory for Markdown files.
    Walk,
    /// Convert the file.
    File,
}

/// The mode for the given arguments: standard input when there is no
/// input; with `-o`, a single file, which needs exactly one input;
/// otherwise a batch.
pub open spec fn mode_spec(n_inputs: nat, has_output: bool) -> Result<Mode, ()> {
    if n_inputs == 0 {
        Ok(Mode::Stdin)
    } else if has_output {
        if n_inputs == 1 {
            Ok(Mode::SingleOutput)
        } else {
            Err(())
        }
    } else {
        Ok(Mode::Batch)
    }
}

/// Chooses what the program does from its arguments.
pub fn choose_mode(args: &Args) -> (r: Result<Mode, CliError>)
    ensures
        match mode_spec(args.input@.len(), args.output is Some) {
            Ok(m) => r == Ok::<Mode, CliError>(m),
            Err(_) => r matches Err(CliError::OutputNeedsOneInput),
        },
{
    if args.input.len() == 0 {
        Ok(Mode::Stdin)
    } else if args.output.is_some() {
        if args.input.len() == 1 {
            Ok(Mode::SingleOutput)
        } else {
            Err(CliError::OutputNeedsOneInput)
        }
    } else {
        Ok(Mode::Batch)
    }
}

/// Where the files of a batch go: to standard output when `--stdout`
/// forces it, else in place with `-w`, else into the directory given with
/// `-d`, else to standard output.
pub fn batch_target(args: &Args) -> (r: BatchTarget)
    ensures
        r == (if args.stdout {
            BatchTarget::Stdout
        } else if args.overwrite {
            BatchTarget::InPlace
        } else if args.dir is Some {
            BatchTarget::Directory
        } else {
            BatchTarget::Stdout
        }),
{
    if args.stdout {
        BatchTarget::Stdout
    } else if args.overwrite {
        BatchTarget::InPlace
    } else if args.dir.is_some() {
        BatchTarget::Directory
    } else {
        BatchTarget::Stdout
    }
}

/// Decides how the input `path` is handled, given whether it is a
/// directory or a file: a directory is walked with `-r` and refused
/// without; a file is converted; anything else is not found.
pub fn classify_input(path: &str, is_dir: bool, is_file: bool, recursive: bool) -> (r: Result<
    InputAction,
    CliError,
>)
    ensures
        is_dir && recursive ==> r == Ok::<InputAction, CliError>(InputAction::Walk),
        !(is_dir && recursive) && is_file ==> r == Ok::<InputAction, CliError>(InputAction::File),
        !(is_dir && recursive) && !is_file && is_dir ==> (r matches Err(CliError::IsDirectory(p))
            && p@ == path@),
        !is_dir && !is_file ==> (r matches Err(CliError::NotFound(p)) && p@ == path@),
{
    if is_dir && recursive {
        Ok(InputAction::Walk)
    } else if is_file {
        Ok(InputAction::File)
    } else if is_dir {
        Err(CliError::IsDirectory(copy_string(path)))
    } else {
        Err(CliError::NotFound(copy_string(path)))
    }
}

/// A copy of `s`.
fn copy_string(s: &str) -> (r: String)
    ensures
        r@ == s@,
{
    let cs = str_chars(s);
    string_from_chars(cs.as_slice())
}

/// Whether a directory entry with this name is hidden (starts with `.`);
/// a walk does not enter hidden entries.
pub fn is_hidden_name(name: &str) -> (r: bool)
    ensures
        r == (name@.len() > 0 && name@[0] == '.'),
{
    let cs = str_chars(name);
    cs.len() > 0 && cs[0] == '.'
}

/// Whether a file with this extension is a Markdown file (`md`).
pub fn is_markdown_extension(ext: &str) -> (r: bool)
    ensures
        r == (ext@ == "md"@),
{
    let cs = str_chars(ext);
    let md = str_chars("md");
    if cs.len() != md.len() {
        return false;
    }
    let mut i: usize = 0;
    while i < cs.len()
        invariant
            i <= cs@.len(),
            cs@.len() == md@.len(),
            cs@ == ext@,
            md@ == "md"@,
            forall|j: int| 0 <= j < i ==> cs@[j] == md@[j],
        decreases cs@.len() - i,
    {
        if cs[i] != md[i] {
            assert(cs@[i as int] != md@[i as int]);
            return false;
        }
        i += 1;
    }
    assert(cs@ =~= md@);
    true
}

/// The output file name for an input with file stem `stem`.
pub fn norg_file_name(stem: &str) -> (r: String)
    ensures
        r@ == stem@ + ".norg"@,
{
    let mut out = str_chars(stem);
    push_str(&mut out, ".norg");
    string_from_chars(out.as_slice())
}

/// The text of each error, as the program reports it.
pub open spec fn error_message(e: CliError) -> Seq<char> {
    match e {
        CliError::OutputNeedsOneInput => "-o requires exactly one input file"@,
        CliError::IsDirectory(p) => p@ + " is a directory (use -r to recurse)"@,
        CliError::NotFound(p) => p@ + " not found"@,
        CliError::NoInputFiles => "no input files found"@,
    }
}

impl CliError {
    /// The text of this error, as the program reports it.
    pub fn message(&self) -> (r: String)
        ensures
            r@ == error_message(*self),
    {
        let mut out: Vec<char> = Vec::new();
        match self {
            CliError::OutputNeedsOneInput => push_str(&mut out, "-o requires exactly one input file"),
            CliError::IsDirectory(p) => {
                let cs = str_chars(p.as_str());
                push_all(&mut out, cs.as_slice());
                push_str(&mut out, " is a directory (use -r to recurse)");
            },
            CliError::NotFound(p) => {
                let cs = str_chars(p.as_str());
                push_all(&mut out, cs.as_slice());
                push_str(&mut out, " not found");
            },
            CliError::NoInputFiles => push_str(&mut out, "no input files found"),
        }
        assert(out@ =~= error_message(*self));
        string_from_chars(out.as_slice())
    }
}

/// Checks that a batch found at least one file.
pub fn require_files(n_files: usize) -> (r: Result<(), CliError>)
    ensures
        n_files == 0 <==> (r matches Err(CliError::NoInputFiles)),
        n_files > 0 <==> r is Ok,
{
    if n_files == 0 {
        Err(CliError::NoInputFiles)
    } else {
        Ok(())
    }
}

} // verus!
