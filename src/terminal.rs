use vstd::prelude::*;
use crate::editor::LineEditor;
use crate::monitor::CommandName;
use crate::text::{begins_with, split_colon, words, words_of};

verus! {

/// One operator command, as sent to the control plane.
pub struct TermInput {
    pub cmd_name: CommandName,
    pub args: Vec<ProcessArg>,
}

impl TermInput {
    pub fn new(cmd_name: CommandName, args: Vec<ProcessArg>) -> (r: TermInput)
        ensures
            r.cmd_name == cmd_name,
            r.args == args,
    {
        TermInput { cmd_name, args }
    }
}

/// A `task[:id]` argument: the task's name and the id selector (`*` for all).
pub struct ProcessArg {
    pub name: String,
    pub id: String,
}

/// The operator's side of the terminal: the line editor and its history.
pub struct Terminal {
    pub editor: LineEditor,
}

/// What a line typed at the terminal asks for.
pub enum Reply {
    /// A blank line.
    Nothing,
    /// A command for the control plane.
    Send(TermInput),
    /// start, stop or restart without a task: print the usage of this command.
    MissingTask(String),
    /// Print the list of commands.
    Help,
    /// Not a command.
    NotFound,
}

/// The command words, in the order completion offers them.
pub open spec fn command_words() -> Seq<Seq<char>> {
    seq!["status"@, "start"@, "stop"@, "shutdown"@, "restart"@, "help"@, "update"@, "kill"@]
}

pub open spec fn is_prefix(p: Seq<char>, s: Seq<char>) -> bool {
    p.len() <= s.len() && s.take(p.len() as int) == p
}

/// The first `k` command words that begin with `w`, in order.
pub open spec fn completions_upto(w: Seq<char>, k: int) -> Seq<Seq<char>>
    decreases k,
{
    if k <= 0 {
        Seq::empty()
    } else {
        let rest = completions_upto(w, k - 1);
        if is_prefix(w, command_words()[k - 1]) {
            rest.push(command_words()[k - 1])
        } else {
            rest
        }
    }
}

/// `name` and `id` are what the argument `s` names: the text before the first
/// ':' (all of it when there is none), and the text after it, `*` when that
/// is empty or there is no ':'.
pub open spec fn arg_fits(s: Seq<char>, name: Seq<char>, id: Seq<char>) -> bool {
    let k = name.len() as int;
    &&& !name.contains(':')
    &&& !s.contains(':') ==> name == s && id == seq!['*']
    &&& s.contains(':') ==> {
        &&& k < s.len()
        &&& s.take(k) == name
        &&& s[k] == ':'
        &&& id == if k + 1 == s.len() { seq!['*'] } else { s.skip(k + 1) }
    }
}

/// The operator verb a word names; `help` is none of them.
pub open spec fn command_of(w: Seq<char>) -> Option<CommandName> {
    if w == "start"@ {
        Some(CommandName::START)
    } else if w == "stop"@ {
        Some(CommandName::STOP)
    } else if w == "restart"@ {
        Some(CommandName::RESTART)
    } else if w == "status"@ {
        Some(CommandName::STATUS)
    } else if w == "update"@ {
        Some(CommandName::UPDATE)
    } else if w == "shutdown"@ {
        Some(CommandName::SHUTDOWN)
    } else if w == "kill"@ {
        Some(CommandName::KILL)
    } else {
        None
    }
}

pub open spec fn needs_task(c: CommandName) -> bool {
    c is START || c is STOP || c is RESTART
}

/// `args` are the arguments `words[1..]`, one for one.
pub open spec fn args_fit(words: Seq<Seq<char>>, args: Seq<ProcessArg>) -> bool {
    &&& args.len() + 1 == words.len()
    &&& forall|i: int| 0 <= i < args.len() ==> arg_fits(words[i + 1], (#[trigger] args[i]).name@, args[i].id@)
}

/// What the line with these words asks for.
pub open spec fn reply_fits(words: Seq<Seq<char>>, r: Reply) -> bool {
    if words.len() == 0 {
        r is Nothing
    } else {
        match command_of(words[0]) {
            None => if words[0] == "help"@ {
                r is Help
            } else {
                r is NotFound
            },
            Some(c) => if needs_task(c) && words.len() == 1 {
                r matches Reply::MissingTask(m) && m@ == words[0]
            } else {
                r matches Reply::Send(t) && t.cmd_name == c && args_fit(words, t.args@)
            },
        }
    }
}

fn owned(s: &str) -> (r: String)
    ensures
        r@ == s@,
{
    s.to_owned()
}

impl Terminal {
    pub fn new() -> (r: Terminal)
        ensures
            r.editor.wf(),
            r.editor.line@.len() == 0,
            r.editor.history@.len() == 0,
    {
        Terminal { editor: LineEditor::new() }
    }

    /// The command words that begin with `word`, in the fixed order of
    /// `command_words`.
    pub fn get_completions(word: &str) -> (r: Vec<String>)
        ensures
            r@.map_values(|s: String| s@) == completions_upto(word@, 8),
    {
        let mut all: Vec<&str> = Vec::new();
        all.push("status");
        all.push("start");
        all.push("stop");
        all.push("shutdown");
        all.push("restart");
        all.push("help");
        all.push("update");
        all.push("kill");
        assert(all@.map_values(|s: &str| s@) =~= command_words());
        let mut r: Vec<String> = Vec::new();
        let mut i: usize = 0;
        while i < all.len()
            invariant
                all@.len() == 8,
                all@.map_values(|s: &str| s@) == command_words(),
                0 <= i <= 8,
                r@.map_values(|s: String| s@) == completions_upto(word@, i as int),
            decreases 8 - i,
        {
            assert(all@[i as int]@ == command_words()[i as int]);
            if begins_with(all[i], word) {
                let c = owned(all[i]);
                proof {
                    assert(r@.push(c).map_values(|s: String| s@) =~= r@.map_values(|s: String| s@).push(c@));
                }
                r.push(c);
            }
            i = i + 1;
        }
        r
    }

    /// Splits a `task[:id]` argument into the task's name and its id
    /// selector, `*` when the id is absent or empty.
    pub fn get_task_and_arg(s: &str) -> (r: ProcessArg)
        ensures
            arg_fits(s@, r.name@, r.id@),
    {
        let all = "*";
        proof {
            reveal_strlit("*");
            assert(all@ =~= seq!['*']);
        }
        match split_colon(s) {
            None => ProcessArg { name: owned(s), id: owned(all) },
            Some((name, id)) => {
                let ghost k = name@.len() as int;
                proof {
                    assert(s@.take(k) =~= name@);
                    assert(s@[k] == ':');
                    assert(s@.skip(k + 1) =~= id@);
                    assert(s@.contains(':')) by {
                        assert(s@[k] == ':');
                    }
                }
                if id.is_empty() {
                    ProcessArg { name: owned(name), id: owned(all) }
                } else {
                    ProcessArg { name: owned(name), id: owned(id) }
                }
            },
        }
    }

    /// The first word as the command, and each further word as a
    /// `task[:id]` argument.
    pub fn parse_args(input: &Vec<&str>) -> (r: (Option<String>, Vec<ProcessArg>))
        ensures
            input@.len() == 0 ==> r.0 is None && r.1@.len() == 0,
            input@.len() > 0 ==> r.0 is Some && r.0->0@ == input@[0]@ && args_fit(
                input@.map_values(|w: &str| w@),
                r.1@,
            ),
    {
        let ghost ws = input@.map_values(|w: &str| w@);
        if input.len() == 0 {
            return (None, Vec::new());
        }
        let cmd = owned(input[0]);
        let mut args: Vec<ProcessArg> = Vec::new();
        let mut i: usize = 1;
        while i < input.len()
            invariant
                ws == input@.map_values(|w: &str| w@),
                1 <= i <= input@.len(),
                args@.len() + 1 == i,
                forall|j: int| 0 <= j < args@.len() ==> arg_fits(ws[j + 1], (#[trigger] args@[j]).name@, args@[j].id@),
            decreases input@.len() - i,
        {
            args.push(Self::get_task_and_arg(input[i]));
            i = i + 1;
        }
        (Some(cmd), args)
    }

    /// What the line with these words asks for: a command for the control
    /// plane, a usage message when start, stop or restart has no task, the
    /// help text, or "not found".
    pub fn decide(input: &Vec<&str>) -> (r: Reply)
        ensures
            reply_fits(input@.map_values(|w: &str| w@), r),
    {
        let ghost ws = input@.map_values(|w: &str| w@);
        let (cmd, args) = Self::parse_args(input);
        let cmd = match cmd {
            None => {
                return Reply::Nothing;
            },
            Some(c) => c,
        };
        assert(ws[0] == cmd@);
        let verb = if cmd == owned("start") {
            Some(CommandName::START)
        } else if cmd == owned("stop") {
            Some(CommandName::STOP)
        } else if cmd == owned("restart") {
            Some(CommandName::RESTART)
        } else if cmd == owned("status") {
            Some(CommandName::STATUS)
        } else if cmd == owned("update") {
            Some(CommandName::UPDATE)
        } else if cmd == owned("shutdown") {
            Some(CommandName::SHUTDOWN)
        } else if cmd == owned("kill") {
            Some(CommandName::KILL)
        } else {
            None
        };
        assert(verb == command_of(cmd@));
        match verb {
            None => {
                if cmd == owned("help") {
                    Reply::Help
                } else {
                    Reply::NotFound
                }
            },
            Some(c) => {
                let bare = matches!(c, CommandName::START) || matches!(c, CommandName::STOP)
                    || matches!(c, CommandName::RESTART);
                if bare && args.len() == 0 {
                    Reply::MissingTask(cmd)
                } else {
                    Reply::Send(TermInput::new(c, args))
                }
            },
        }
    }

    /// What a line typed at the terminal asks for, from its
    /// whitespace-separated words.
    pub fn check_input(input: &str) -> (r: Reply)
        ensures
            reply_fits(words_of(input@), r),
    {
        let w = words(input);
        Self::decide(&w)
    }
}

} // verus!
