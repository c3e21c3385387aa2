//! How the terminal starts its shell: which program, with which arguments,
//! environment and working directory, decided from the user's environment.
use vstd::prelude::*;

verus! {

/// What to run in a new terminal.
pub struct ShellPlan {
    pub program: String,
    pub args: Vec<String>,
    /// Variables set for the shell, in order.
    pub env: Vec<(String, String)>,
    /// The directory to start in; none keeps the terminal's own.
    pub cwd: Option<String>,
}

/// The shell: `$SHELL`, or `/bin/sh` when it is not set.
pub open spec fn spec_program(shell_var: Option<Seq<char>>) -> Seq<char> {
    match shell_var {
        Some(s) => s,
        None => "/bin/sh"@,
    }
}

/// The variables set for the shell: the terminal type, true colour, and a
/// UTF-8 locale when `$LANG` is unset or empty.
pub open spec fn spec_env(lang_var: Option<Seq<char>>) -> Seq<(Seq<char>, Seq<char>)> {
    let base = seq![("TERM"@, "xterm-256color"@), ("COLORTERM"@, "truecolor"@)];
    let lang_empty = match lang_var {
        Some(l) => l.len() == 0,
        None => true,
    };
    if lang_empty {
        base.push(("LANG"@, "en_US.UTF-8"@))
    } else {
        base
    }
}

/// The starting directory: the one asked for, else `$HOME`, else none.
pub open spec fn spec_cwd(requested: Option<Seq<char>>, home: Option<Seq<char>>) -> Option<Seq<char>> {
    match requested {
        Some(d) => Some(d),
        None => home,
    }
}

pub open spec fn opt_view(o: Option<&str>) -> Option<Seq<char>> {
    match o {
        Some(s) => Some(s@),
        None => None,
    }
}

fn owned(s: &str) -> (o: String)
    ensures
        o@ == s@,
{
    s.to_owned()
}

/// Plans the shell of a new terminal from `$SHELL`, `$LANG`, the directory
/// asked for and `$HOME` (each none when unset). The shell is started as a
/// login shell.
pub fn shell_plan(shell_var: Option<&str>, lang_var: Option<&str>, requested_cwd: Option<&str>, home: Option<&str>) -> (p: ShellPlan)
    ensures
        p.program@ == spec_program(opt_view(shell_var)),
        p.args@.len() == 1 && p.args@[0]@ == "-l"@,
        p.env@.len() == spec_env(opt_view(lang_var)).len(),
        forall|i: int|
            0 <= i < p.env@.len() ==> (#[trigger] p.env@[i]).0@ == spec_env(opt_view(lang_var))[i].0
                && p.env@[i].1@ == spec_env(opt_view(lang_var))[i].1,
        match p.cwd {
            Some(d) => spec_cwd(opt_view(requested_cwd), opt_view(home)) == Some(d@),
            None => spec_cwd(opt_view(requested_cwd), opt_view(home)) is None,
        },
{
    let program = match shell_var {
        Some(s) => owned(s),
        None => owned("/bin/sh"),
    };
    let args = vec![owned("-l")];
    let mut env: Vec<(String, String)> = Vec::new();
    env.push((owned("TERM"), owned("xterm-256color")));
    env.push((owned("COLORTERM"), owned("truecolor")));
    let lang_empty = match lang_var {
        Some(l) => l.unicode_len() == 0,
        None => true,
    };
    if lang_empty {
        env.push((owned("LANG"), owned("en_US.UTF-8")));
    }
    let cwd = match requested_cwd {
        Some(d) => Some(owned(d)),
        None => match home {
            Some(h) => Some(owned(h)),
            None => None,
        },
    };
    ShellPlan { program, args, env, cwd }
}

} // verus!
