//! The command-line grammar: a list of words mapped to a subcommand.
//!
//! Verbosity flags come first; the next word names the subcommand and
//! fixes how many operands follow — except `doas`, which takes the
//! whole remainder as the command to run.  No word is ever dropped or
//! reordered.

use vstd::prelude::*;
use vstd::string::StringExecFns;

verus! {

/// A parsed command line.
pub struct Args {
    /// Whether diagnostic messages go to the error stream.
    pub verbose: bool,
    /// The subcommand; none means the default (`get`).
    pub command: Option<Commands>,
}

/// The subcommands.
pub enum Commands {
    /// Show the current author, and the authors available.
    Get,
    /// Make the stored author `id` the active one, locally.
    SetActive { id: String },
    /// Store (or overwrite) an author under `id`.
    Add { id: String, name: String, email: String },
    /// Remove the author stored under `id`.
    Remove { id: String },
    /// Run `cmd` as the author `id`, then restore the prior author.
    Doas { id: String, cmd: Vec<String> },
    /// Store the presently active author under `id`.
    AddFromGit { id: String },
    /// Copy the discovered config file to `destination` (the working
    /// directory when absent).
    CopyConfig { destination: Option<String> },
}

/// The words of a command line, as character sequences.
pub open spec fn words_view(s: Seq<String>) -> Seq<Seq<char>> {
    s.map(|i: int, w: String| w@)
}

/// Whether a word asks for verbose diagnostics.
pub open spec fn is_verbose_flag(w: Seq<char>) -> bool {
    w == "-v"@ || w == "--verbose"@
}

/// How many leading words are verbosity flags.
pub open spec fn flag_count(av: Seq<Seq<char>>) -> int
    decreases av.len(),
{
    if av.len() > 0 && is_verbose_flag(av[0]) {
        1 + flag_count(av.drop_first())
    } else {
        0
    }
}

proof fn lemma_flag_count(av: Seq<Seq<char>>, i: int)
    requires
        0 <= i <= av.len(),
        forall|j: int| 0 <= j < i ==> is_verbose_flag(av[j]),
        i < av.len() ==> !is_verbose_flag(av[i]),
    ensures
        flag_count(av) == i,
    decreases av.len(),
{
    if i == 0 {
    } else {
        let rest = av.drop_first();
        assert(forall|j: int| 0 <= j < rest.len() ==> rest[j] == av[j + 1]);
        lemma_flag_count(rest, i - 1);
    }
}

/// Whether the words after the flags are a well-shaped subcommand.
pub open spec fn cmd_shape_ok(rest: Seq<Seq<char>>) -> bool {
    if rest.len() == 0 {
        true
    } else {
        let w = rest[0];
        if w == "get"@ {
            rest.len() == 1
        } else if w == "set"@ {
            rest.len() == 2
        } else if w == "add"@ {
            rest.len() == 4
        } else if w == "remove"@ {
            rest.len() == 2
        } else if w == "doas"@ {
            rest.len() >= 2
        } else if w == "add-from-git"@ {
            rest.len() == 2
        } else if w == "copy-config"@ {
            rest.len() == 1 || rest.len() == 2
        } else {
            false
        }
    }
}

/// Whether `c` is exactly the subcommand the words after the flags
/// spell.
pub open spec fn cmd_matches(c: Option<Commands>, rest: Seq<Seq<char>>) -> bool {
    if rest.len() == 0 {
        c is None
    } else {
        let w = rest[0];
        if w == "get"@ {
            c matches Some(Commands::Get)
        } else if w == "set"@ {
            c matches Some(Commands::SetActive { id }) && id@ == rest[1]
        } else if w == "add"@ {
            c matches Some(Commands::Add { id, name, email }) && id@ == rest[1] && name@ == rest[2]
                && email@ == rest[3]
        } else if w == "remove"@ {
            c matches Some(Commands::Remove { id }) && id@ == rest[1]
        } else if w == "doas"@ {
            c matches Some(Commands::Doas { id, cmd }) && id@ == rest[1] && words_view(cmd@)
                == rest.skip(2)
        } else if w == "add-from-git"@ {
            c matches Some(Commands::AddFromGit { id }) && id@ == rest[1]
        } else if w == "copy-config"@ {
            c matches Some(Commands::CopyConfig { destination }) && (rest.len() == 1
                ==> destination is None) && (rest.len() == 2 ==> (destination matches Some(d) && d@
                == rest[1]))
        } else {
            false
        }
    }
}

/// Whether a word asks for verbose diagnostics.
fn is_flag(w: &String) -> (r: bool)
    ensures
        r == is_verbose_flag(w@),
{
    let short = String::from_str("-v");
    let long = String::from_str("--verbose");
    *w == short || *w == long
}

/// The first index at or after `i` whose word is not a verbosity flag.
fn count_flags(argv: &Vec<String>, i: usize) -> (r: usize)
    requires
        i <= argv@.len(),
    ensures
        i <= r <= argv@.len(),
        forall|j: int| i <= j < r ==> is_verbose_flag(argv@[j]@),
        r < argv@.len() ==> !is_verbose_flag(argv@[r as int]@),
    decreases argv@.len() - i,
{
    if i == argv.len() {
        return i;
    }
    if is_flag(&argv[i]) {
        count_flags(argv, i + 1)
    } else {
        i
    }
}

/// Parses a command line (program name excluded): leading verbosity
/// flags, then the subcommand and its operands.  Errs exactly on an
/// unrecognized subcommand or a wrong number of operands, with a
/// usage message.
#[verifier::loop_isolation(false)]
pub fn args(argv: &Vec<String>) -> (r: Result<Args, String>)
    ensures
        ({
            let av = words_view(argv@);
            let rest = av.skip(flag_count(av));
            &&& (r is Ok <==> cmd_shape_ok(rest))
            &&& (r matches Ok(a) ==> a.verbose == (flag_count(av) > 0) && cmd_matches(
                a.command,
                rest,
            ))
        }),
{
    let ghost av = words_view(argv@);
    let fc = count_flags(argv, 0);
    proof {
        assert(forall|j: int| 0 <= j < argv@.len() ==> av[j] == argv@[j]@);
        lemma_flag_count(av, fc as int);
    }
    let ghost rest = av.skip(fc as int);
    proof {
        assert(forall|k: int| 0 <= k < rest.len() ==> rest[k] == av[fc + k]);
    }
    let verbose = fc > 0;
    if fc == argv.len() {
        return Ok(Args { verbose, command: None });
    }
    let w = &argv[fc];
    assert(w@ == rest[0]);
    let n = argv.len() - fc;
    assert(n == rest.len());
    if *w == String::from_str("get") {
        if n == 1 {
            Ok(Args { verbose, command: Some(Commands::Get) })
        } else {
            Err(usage())
        }
    } else if *w == String::from_str("set") {
        if n == 2 {
            let id = argv[fc + 1].clone();
            assert(id@ == rest[1]);
            Ok(Args { verbose, command: Some(Commands::SetActive { id }) })
        } else {
            Err(usage())
        }
    } else if *w == String::from_str("add") {
        if n == 4 {
            let id = argv[fc + 1].clone();
            let name = argv[fc + 2].clone();
            let email = argv[fc + 3].clone();
            assert(id@ == rest[1] && name@ == rest[2] && email@ == rest[3]);
            Ok(Args { verbose, command: Some(Commands::Add { id, name, email }) })
        } else {
            Err(usage())
        }
    } else if *w == String::from_str("remove") {
        if n == 2 {
            let id = argv[fc + 1].clone();
            assert(id@ == rest[1]);
            Ok(Args { verbose, command: Some(Commands::Remove { id }) })
        } else {
            Err(usage())
        }
    } else if *w == String::from_str("doas") {
        if n >= 2 {
            let id = argv[fc + 1].clone();
            assert(id@ == rest[1]);
            let mut cmd: Vec<String> = Vec::new();
            let mut j = fc + 2;
            while j < argv.len()
                invariant
                    fc + 2 <= j <= argv@.len(),
                    words_view(cmd@) == words_view(argv@).subrange(fc + 2, j as int),
                decreases argv@.len() - j,
            {
                cmd.push(argv[j].clone());
                proof {
                    assert(words_view(cmd@) =~= words_view(argv@).subrange(fc + 2, j + 1 as int));
                }
                j += 1;
            }
            proof {
                assert(words_view(cmd@) =~= rest.skip(2));
            }
            Ok(Args { verbose, command: Some(Commands::Doas { id, cmd }) })
        } else {
            Err(usage())
        }
    } else if *w == String::from_str("add-from-git") {
        if n == 2 {
            let id = argv[fc + 1].clone();
            assert(id@ == rest[1]);
            Ok(Args { verbose, command: Some(Commands::AddFromGit { id }) })
        } else {
            Err(usage())
        }
    } else if *w == String::from_str("copy-config") {
        if n == 1 {
            Ok(Args { verbose, command: Some(Commands::CopyConfig { destination: None }) })
        } else if n == 2 {
            let destination = Some(argv[fc + 1].clone());
            Ok(Args { verbose, command: Some(Commands::CopyConfig { destination }) })
        } else {
            Err(usage())
        }
    } else {
        Err(usage())
    }
}

/// The line shown for a malformed command line.
fn usage() -> (r: String) {
    String::from_str(
        "usage: [-v|--verbose] [get | set <id> | add <id> <name> <email> | remove <id> | doas <id> <cmd>... | add-from-git <id> | copy-config [destination]]",
    )
}

} // verus!
