use vstd::prelude::*;

use crate::config::ValidatedPlaylist;
use crate::util::{is_space, is_space_char};

verus! {

/// Whether a command argument is the placeholder that stands for the image path.
pub open spec fn is_placeholder(a: Seq<char>) -> bool {
    a =~= seq!['{', '}']
}

/// The argument list of a command template with every placeholder replaced by `path`.
pub open spec fn substituted(args: Seq<String>, path: String) -> Seq<String> {
    args.map_values(|a: String| if is_placeholder(a@) { path } else { a })
}

pub open spec fn has_space(s: Seq<char>) -> bool {
    exists|i: int| 0 <= i < s.len() && is_space(s[i])
}

/// A word as it is shown in messages: in double quotes if it holds white space.
pub open spec fn quoted(s: Seq<char>) -> Seq<char> {
    if has_space(s) {
        seq!['"'] + s + seq!['"']
    } else {
        s
    }
}

/// A command line as it is shown in messages: its words, each quoted if
/// needed, separated by spaces.
pub open spec fn shown_line(program: Seq<char>, args: Seq<String>) -> Seq<char>
    decreases args.len(),
{
    if args.len() == 0 {
        quoted(program)
    } else {
        shown_line(program, args.drop_last()) + seq![' '] + quoted(args.last()@)
    }
}

fn contains_space(s: &str) -> (r: bool)
    ensures
        r == has_space(s@),
{
    let n = s.unicode_len();
    let mut i: usize = 0;
    while i < n
        invariant
            i <= n,
            n == s@.len(),
            forall|k: int| 0 <= k < i ==> !is_space(s@[k]),
        decreases n - i,
    {
        if is_space_char(s.get_char(i)) {
            return true;
        }
        i = i + 1;
    }
    false
}

fn append_quoted(out: &mut String, s: &str)
    ensures
        final(out)@ == old(out)@ + quoted(s@),
{
    if contains_space(s) {
        proof {
            reveal_strlit("\"");
        }
        out.append("\"");
        out.append(s);
        out.append("\"");
        assert(out@ =~= old(out)@ + quoted(s@));
    } else {
        out.append(s);
    }
}

/// A program together with the arguments to run it with.
pub struct CommandLine {
    pub program: String,
    pub args: Vec<String>,
}

impl CommandLine {
    /// The command line as it is shown in messages (see `shown_line`).
    pub fn to_display_string(&self) -> (r: String)
        ensures
            r@ == shown_line(self.program@, self.args@),
    {
        let mut out = String::new();
        append_quoted(&mut out, self.program.as_str());
        let mut i: usize = 0;
        while i < self.args.len()
            invariant
                i <= self.args.len(),
                out@ == shown_line(self.program@, self.args@.subrange(0, i as int)),
            decreases self.args.len() - i,
        {
            proof {
                reveal_strlit(" ");
            }
            out.append(" ");
            append_quoted(&mut out, self.args[i].as_str());
            assert(self.args@.subrange(0, i + 1).drop_last() =~= self.args@.subrange(0, i as int));
            assert(out@ =~= shown_line(self.program@, self.args@.subrange(0, i + 1)));
            i = i + 1;
        }
        assert(self.args@.subrange(0, i as int) =~= self.args@);
        out
    }
}

/// The command template of a playlist: a program and its arguments, one of
/// which is the placeholder `{}`.
pub struct ChangeCommand {
    name: String,
    args: Vec<String>,
}

pub(crate) fn is_placeholder_arg(a: &String) -> (r: bool)
    ensures
        r == is_placeholder(a@),
{
    let s = a.as_str();
    if s.unicode_len() != 2 {
        return false;
    }
    let r = s.get_char(0) == '{' && s.get_char(1) == '}';
    proof {
        if r {
            assert(s@ =~= seq!['{', '}']);
        }
    }
    r
}

impl ChangeCommand {
    pub closed spec fn name(&self) -> String {
        self.name
    }

    pub closed spec fn args(&self) -> Seq<String> {
        self.args@
    }

    pub fn from_config(config: &ValidatedPlaylist) -> (r: ChangeCommand)
        ensures
            r.name() == config.command,
            r.args() == config.command_args@,
    {
        ChangeCommand { name: config.command.clone(), args: config.command_args.clone() }
    }

    /// The command line that shows the image at `path`.
    pub fn command_line(&self, path: &String) -> (r: CommandLine)
        ensures
            r.program == self.name(),
            r.args@ == substituted(self.args(), *path),
    {
        let mut args: Vec<String> = Vec::new();
        let mut i: usize = 0;
        while i < self.args.len()
            invariant
                i <= self.args.len(),
                args@ =~= substituted(self.args@.subrange(0, i as int), *path),
            decreases self.args.len() - i,
        {
            let a = &self.args[i];
            if is_placeholder_arg(a) {
                args.push(path.clone());
            } else {
                args.push(a.clone());
            }
            assert(self.args@.subrange(0, i + 1) =~= self.args@.subrange(0, i as int).push(
                self.args@[i as int],
            ));
            i = i + 1;
        }
        assert(self.args@.subrange(0, i as int) =~= self.args@);
        CommandLine { program: self.name.clone(), args }
    }
}

} // verus!
