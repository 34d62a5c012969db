//! What the library asks of the host, and what the host answers.
use vstd::prelude::*;

use crate::decimal::print_i32;
use crate::text::trim;

verus! {

broadcast use vstd::string::group_string_axioms;

// ---------------------------------------------------------------------------
// Files
// ---------------------------------------------------------------------------

/// A file to write.
#[derive(Debug)]
pub struct FileWrite {
    pub path: String,
    pub content: String,
}

/// A file to write, as texts.
#[verifier::ext_equal]
pub struct FileText {
    pub path: Seq<char>,
    pub content: Seq<char>,
}

impl View for FileWrite {
    type V = FileText;

    open spec fn view(&self) -> FileText {
        FileText { path: self.path@, content: self.content@ }
    }
}

/// The path of the entry `name` of the directory `dir`.
pub open spec fn path_in(dir: Seq<char>, name: Seq<char>) -> Seq<char> {
    if dir.len() == 0 || dir.last() == '/' {
        dir + name
    } else {
        dir + "/"@ + name
    }
}

/// The path of the entry `name` of the directory `dir`.
pub fn join_path(dir: &str, name: &str) -> (r: String)
    ensures
        r@ == path_in(dir@, name@),
{
    let n: usize = dir.unicode_len();
    if n == 0 || dir.get_char(n - 1) == '/' {
        dir.to_owned().concat(name)
    } else {
        dir.to_owned().concat("/").concat(name)
    }
}

// ---------------------------------------------------------------------------
// Commands
// ---------------------------------------------------------------------------

/// A command to run.
#[derive(Debug)]
pub struct CommandLine {
    pub program: String,
    pub args: Vec<String>,
}

/// A command to run, as texts.
#[verifier::ext_equal]
pub struct CommandText {
    pub program: Seq<char>,
    pub args: Seq<Seq<char>>,
}

impl View for CommandLine {
    type V = CommandText;

    open spec fn view(&self) -> CommandText {
        CommandText { program: self.program@, args: crate::text::strings(self.args@) }
    }
}

impl CommandLine {
    /// The command `program` without arguments.
    pub fn new(program: &str) -> (r: Self)
        ensures
            r@ == (CommandText { program: program@, args: Seq::empty() }),
    {
        let r = CommandLine { program: program.to_owned(), args: Vec::new() };
        assert(r@.args =~= Seq::<Seq<char>>::empty());
        r
    }

    /// The same command with one more argument.
    pub fn arg(self, arg: &str) -> (r: Self)
        ensures
            r@ == (CommandText { program: self@.program, args: self@.args.push(arg@) }),
    {
        let CommandLine { program, args } = self;
        let mut args: Vec<String> = args;
        args.push(arg.to_owned());
        let r = CommandLine { program, args };
        assert(r@.args =~= self@.args.push(arg@));
        r
    }
}

/// How a command ended.
#[derive(Debug)]
pub enum CommandOutcome {
    /// It could not be started; the text says why.
    NotStarted(String),
    /// It ran to its end.
    Ended {
        /// Whether it reported success.
        success: bool,
        /// Its exit code, unless a signal ended it.
        code: Option<i32>,
        /// What it printed.
        stdout: String,
        /// What it printed as errors.
        stderr: String,
    },
}

/// The code that is reported for a command that a signal ended.
pub open spec fn reported_code(code: Option<i32>) -> int {
    match code {
        Some(c) => c as int,
        None => -1,
    }
}

/// What the command `program` printed, if it ended in success; else what went wrong.
pub open spec fn command_result(program: Seq<char>, outcome: CommandOutcome) -> Result<
    Seq<char>,
    Seq<char>,
> {
    match outcome {
        CommandOutcome::NotStarted(why) => Err("failed to spawn "@ + program + ": "@ + why@),
        CommandOutcome::Ended { success, code, stdout, stderr } => if success {
            Ok(stdout@)
        } else {
            Err(
                program + " failed (exit "@ + crate::decimal::signed_digits(reported_code(code))
                    + "): "@ + crate::text::trimmed(stderr@),
            )
        },
    }
}

/// What the command `program` printed, if it ended in success; else what went wrong:
/// that it could not be started, or its exit code and what it printed as errors.
pub fn run_command(program: &str, outcome: &CommandOutcome) -> (r: Result<String, String>)
    ensures
        match r {
            Ok(stdout) => command_result(program@, *outcome) == Ok::<Seq<char>, Seq<char>>(stdout@),
            Err(e) => command_result(program@, *outcome) == Err::<Seq<char>, Seq<char>>(e@),
        },
{
    match outcome {
        CommandOutcome::NotStarted(why) => Err(
            "failed to spawn ".to_owned().concat(program).concat(": ").concat(why.as_str()),
        ),
        CommandOutcome::Ended { success, code, stdout, stderr } => if *success {
            Ok(stdout.clone())
        } else {
            let shown: i32 = match code {
                Some(c) => *c,
                None => -1,
            };
            Err(
                program.to_owned().concat(" failed (exit ").concat(
                    print_i32(shown).as_str(),
                ).concat("): ").concat(trim(stderr.as_str())),
            )
        },
    }
}

/// A path names an entry of a directory by a `/` between the two, and not by a second one.
pub proof fn law_path_of_an_entry(dir: Seq<char>, name: Seq<char>)
    ensures
        dir.len() > 0 && dir.last() != '/' ==> path_in(dir, name) == dir + seq!['/'] + name,
        path_in(dir + seq!['/'], name) == dir + seq!['/'] + name,
        path_in(Seq::empty(), name) == name,
{
    reveal_strlit("/");
    assert("/"@ =~= seq!['/']);
    assert((dir + seq!['/']).last() == '/');
    assert(Seq::<char>::empty() + name =~= name);
}

/// A command that ends in success gives what it printed. One that does not gives an error that
/// tells the command, its exit code or -1, and what it printed as errors, trimmed. One that could
/// not be started gives an error that tells the command and why.
pub proof fn law_outcome_of_a_command(
    program: Seq<char>,
    code: Option<i32>,
    stdout: String,
    stderr: String,
)
    ensures
        command_result(
            program,
            CommandOutcome::Ended { success: true, code, stdout, stderr },
        ) == Ok::<Seq<char>, Seq<char>>(stdout@),
        command_result(program, CommandOutcome::Ended { success: false, code, stdout, stderr })
            == Err::<Seq<char>, Seq<char>>(
            program + " failed (exit "@ + crate::decimal::signed_digits(
                if code is Some {
                    code->Some_0 as int
                } else {
                    -1
                },
            ) + "): "@ + crate::text::trimmed(stderr@),
        ),
        command_result(program, CommandOutcome::NotStarted(stderr)) == Err::<Seq<char>, Seq<char>>(
            "failed to spawn "@ + program + ": "@ + stderr@,
        ),
{
}

/// A file and a command are the same as texts as they are as strings.
pub proof fn law_files_and_commands_as_texts(file: FileWrite, command: CommandLine)
    ensures
        file@.path == file.path@,
        file@.content == file.content@,
        command@.program == command.program@,
        command@.args.len() == command.args@.len(),
        forall|i: int|
            0 <= i < command.args@.len() ==> #[trigger] command@.args[i] == command.args@[i]@,
{
}

}
