//! The operator's command shell: what a typed line means and what the shell
//! answers. Reading lines and printing answers is left to the caller.

use vstd::prelude::*;

use crate::text::cat;

verus! {

/// The words that shell-style splitting makes of a line, or `None` where its
/// quoting is not closed.
pub uninterp spec fn shell_words(line: Seq<char>) -> Option<Seq<Seq<char>>>;

/// The characters of each string.
pub open spec fn views(v: Seq<String>) -> Seq<Seq<char>> {
    v.map_values(|s: String| s@)
}

/// Relies on `shlex::split`: splits a line into words as a POSIX shell does,
/// or gives `None` for unclosed quoting; the result depends on the line alone.
#[verifier::external_body]
fn split_words(line: &str) -> (r: Option<Vec<String>>)
    ensures
        match r {
            Some(v) => shell_words(line@) == Some(views(v@)),
            None => shell_words(line@) is None,
        },
{
    shlex::split(line)
}

/// The commands of the shell.
#[derive(Clone, Copy, Debug, PartialEq, Eq, Structural)]
pub enum CommandName {
    Help,
    Version,
    ModelList,
    ModelInfo,
    ModelPing,
    ModelExecute,
    ContinuousFeedback,
    Exit,
    ModelModify,
    ModelCreate,
    ModelDelete,
}

/// The command a word names, with its aliases; the commands that change
/// model entries exist only where runtime changes are allowed.
pub open spec fn command_name(w: Seq<char>, allow_changes: bool) -> Option<CommandName> {
    if w == "help"@ {
        Some(CommandName::Help)
    } else if w == "version"@ {
        Some(CommandName::Version)
    } else if w == "model-list"@ || w == "list-models"@ || w == "model-ls"@ || w == "ls-models"@
        || w == "ls"@ {
        Some(CommandName::ModelList)
    } else if w == "model-info"@ {
        Some(CommandName::ModelInfo)
    } else if w == "model-ping"@ || w == "ping-model"@ || w == "ping"@ {
        Some(CommandName::ModelPing)
    } else if w == "model-execute"@ || w == "execute-model"@ || w == "execute"@ {
        Some(CommandName::ModelExecute)
    } else if w == "model-continuous-feedback"@ || w == "continuous-feedback"@ || w
        == "feedback"@ {
        Some(CommandName::ContinuousFeedback)
    } else if w == "exit"@ || w == "quit"@ {
        Some(CommandName::Exit)
    } else if allow_changes && (w == "model-modify"@ || w == "modify"@) {
        Some(CommandName::ModelModify)
    } else if allow_changes && (w == "model-create"@ || w == "create"@) {
        Some(CommandName::ModelCreate)
    } else if allow_changes && (w == "model-delete"@ || w == "delete"@) {
        Some(CommandName::ModelDelete)
    } else {
        None
    }
}

/// How many arguments a command takes.
pub open spec fn arity(c: CommandName) -> nat {
    match c {
        CommandName::ModelInfo | CommandName::ModelPing => 1,
        CommandName::ModelExecute | CommandName::ContinuousFeedback => 2,
        _ => 0,
    }
}

/// The shell's answer to a line: text to print, and whether the shell ends.
#[derive(Debug, PartialEq, Eq)]
pub struct Reply {
    pub text: String,
    pub quit: bool,
}

/// What the shell answers to the words of a line: the text and whether it
/// ends, or an error message.
pub open spec fn answer(words: Seq<Seq<char>>, allow_changes: bool) -> Result<
    (Seq<char>, bool),
    Seq<char>,
> {
    if words.len() == 0 {
        Ok((seq![], false))
    } else {
        let w = words[0];
        match command_name(w, allow_changes) {
            None => Err("error: unrecognized subcommand '"@ + w + "'\n"@),
            Some(c) => if words.len() - 1 < arity(c) {
                Err("error: missing arguments for '"@ + w + "'\n"@)
            } else if words.len() - 1 > arity(c) {
                Err("error: unexpected argument '"@ + words[(arity(c) + 1) as int] + "' found\n"@)
            } else {
                match c {
                    CommandName::Help => Ok(
                        (
                            "commands: version, model-list, model-info <name>, model-ping <name>, model-execute <name> <input>, model-continuous-feedback <name> <state>, exit\n"@,
                            false,
                        ),
                    ),
                    CommandName::Version => Ok(("MER-Driver version: 0.1.0\n"@, false)),
                    CommandName::ModelPing => Ok(
                        ("Checking if model "@ + words[1] + " is available...\n"@, false),
                    ),
                    CommandName::ModelExecute => Ok(
                        (
                            "Executing model "@ + words[1] + " with input "@ + words[2]
                                + "...\n"@,
                            false,
                        ),
                    ),
                    CommandName::ContinuousFeedback => Ok(
                        ("Toggling feedback learning for model "@ + words[1] + "...\n"@, false),
                    ),
                    CommandName::Exit => Ok(("Exiting Model-Executor Runtime-CLI ...\n"@, true)),
                    _ => Err("error: '"@ + w + "' is not implemented yet\n"@),
                }
            },
        }
    }
}

/// The command a word names.
fn name_of(w: &String, allow_changes: bool) -> (r: Option<CommandName>)
    ensures
        r == command_name(w@, allow_changes),
{
    let is = |lit: &str| -> (b: bool)
        ensures
            b == (w@ == lit@),
        { *w == String::from_str(lit) };
    if is("help") {
        Some(CommandName::Help)
    } else if is("version") {
        Some(CommandName::Version)
    } else if is("model-list") || is("list-models") || is("model-ls") || is("ls-models") || is(
        "ls",
    ) {
        Some(CommandName::ModelList)
    } else if is("model-info") {
        Some(CommandName::ModelInfo)
    } else if is("model-ping") || is("ping-model") || is("ping") {
        Some(CommandName::ModelPing)
    } else if is("model-execute") || is("execute-model") || is("execute") {
        Some(CommandName::ModelExecute)
    } else if is("model-continuous-feedback") || is("continuous-feedback") || is("feedback") {
        Some(CommandName::ContinuousFeedback)
    } else if is("exit") || is("quit") {
        Some(CommandName::Exit)
    } else if allow_changes && (is("model-modify") || is("modify")) {
        Some(CommandName::ModelModify)
    } else if allow_changes && (is("model-create") || is("create")) {
        Some(CommandName::ModelCreate)
    } else if allow_changes && (is("model-delete") || is("delete")) {
        Some(CommandName::ModelDelete)
    } else {
        None
    }
}

/// `a + b + c`.
fn cat3(a: &str, b: &str, c: &str) -> (r: String)
    ensures
        r@ == a@ + b@ + c@,
{
    let ab = cat(a, b);
    cat(ab.as_str(), c)
}

/// The shell's answer to the words of a line.
pub fn respond_words(words: &Vec<String>, allow_changes: bool) -> (r: Result<Reply, String>)
    ensures
        match (r, answer(views(words@), allow_changes)) {
            (Ok(rep), Ok((text, quit))) => rep.text@ == text && rep.quit == quit,
            (Err(m), Err(msg)) => m@ == msg,
            _ => false,
        },
{
    let ghost ws = views(words@);
    if words.len() == 0 {
        return Ok(Reply { text: String::new(), quit: false });
    }
    let w = &words[0];
    assert(ws[0] == w@);
    let n = words.len() - 1;
    let c = match name_of(w, allow_changes) {
        None => return Err(cat3("error: unrecognized subcommand '", w.as_str(), "'\n")),
        Some(c) => c,
    };
    let want: usize = match c {
        CommandName::ModelInfo | CommandName::ModelPing => 1,
        CommandName::ModelExecute | CommandName::ContinuousFeedback => 2,
        _ => 0,
    };
    if n < want {
        return Err(cat3("error: missing arguments for '", w.as_str(), "'\n"));
    }
    if n > want {
        assert(ws[want + 1] == words@[want + 1]@);
        return Err(cat3("error: unexpected argument '", words[want + 1].as_str(), "' found\n"));
    }
    match c {
        CommandName::Help => Ok(
            Reply {
                text: String::from_str(
                    "commands: version, model-list, model-info <name>, model-ping <name>, model-execute <name> <input>, model-continuous-feedback <name> <state>, exit\n",
                ),
                quit: false,
            },
        ),
        CommandName::Version => Ok(
            Reply { text: String::from_str("MER-Driver version: 0.1.0\n"), quit: false },
        ),
        CommandName::ModelPing => {
            assert(ws[1] == words@[1]@);
            Ok(
                Reply {
                    text: cat3("Checking if model ", words[1].as_str(), " is available...\n"),
                    quit: false,
                },
            )
        },
        CommandName::ModelExecute => {
            assert(ws[1] == words@[1]@);
            assert(ws[2] == words@[2]@);
            let head = cat3("Executing model ", words[1].as_str(), " with input ");
            Ok(Reply { text: cat3(head.as_str(), words[2].as_str(), "...\n"), quit: false })
        },
        CommandName::ContinuousFeedback => {
            assert(ws[1] == words@[1]@);
            Ok(
                Reply {
                    text: cat3(
                        "Toggling feedback learning for model ",
                        words[1].as_str(),
                        "...\n",
                    ),
                    quit: false,
                },
            )
        },
        CommandName::Exit => Ok(
            Reply { text: String::from_str("Exiting Model-Executor Runtime-CLI ...\n"), quit: true },
        ),
        _ => Err(cat3("error: '", w.as_str(), "' is not implemented yet\n")),
    }
}

/// The operator's shell: the last line typed, and whether commands that
/// change model entries are offered.
pub struct CliReplManager {
    line: String,
    allow_model_server_runtime_changes: bool,
}

impl CliReplManager {
    pub closed spec fn line(&self) -> Seq<char> {
        self.line@
    }

    pub closed spec fn allows_changes(&self) -> bool {
        self.allow_model_server_runtime_changes
    }

    /// A shell with no line typed yet.
    pub fn new(allow_model_server_runtime_changes: bool) -> (r: CliReplManager)
        ensures
            r.line() == Seq::<char>::empty(),
            r.allows_changes() == allow_model_server_runtime_changes,
    {
        CliReplManager { line: String::new(), allow_model_server_runtime_changes }
    }

    /// Takes the line the operator typed.
    pub fn set_line(&mut self, line: String)
        ensures
            final(self).line() == line@,
            final(self).allows_changes() == old(self).allows_changes(),
    {
        self.line = line;
    }

    /// The answer to the last line: an error for unclosed quoting, else the
    /// answer to its words.
    pub fn respond(&self) -> (r: Result<Reply, String>)
        ensures
            match shell_words(self.line()) {
                None => r matches Err(m) && m@ == "Error: Invalid quoting"@,
                Some(ws) => match (r, answer(ws, self.allows_changes())) {
                    (Ok(rep), Ok((text, quit))) => rep.text@ == text && rep.quit == quit,
                    (Err(m), Err(msg)) => m@ == msg,
                    _ => false,
                },
            },
    {
        match split_words(self.line.as_str()) {
            None => Err(String::from_str("Error: Invalid quoting")),
            Some(words) => respond_words(&words, self.allow_model_server_runtime_changes),
        }
    }
}

} // verus!
