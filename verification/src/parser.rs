//! A small command-line parser: the first argument names the command, a
//! dash-prefixed argument is an option taking the next argument as its
//! value, the first bare argument is positional, and further bare
//! arguments are ignored.

use vstd::prelude::*;

use crate::commands::CommandKind;

verus! {

/// A parsed command line.
#[derive(Debug)]
pub struct ParsedCommand {
    /// The command's name.
    pub command: String,
    /// The first bare argument, if any.
    pub positional: Option<String>,
    /// Option key/value pairs, in the order given; a key stripped of its
    /// leading dashes, and the argument after it as its value (empty when
    /// the line ended first). A repeated key keeps every occurrence; the
    /// last one wins on lookup.
    pub options: Vec<(String, String)>,
}

/// The parsed command line, in specifications.
pub ghost struct ParsedCommandView {
    pub command: Seq<char>,
    pub positional: Option<Seq<char>>,
    pub options: Seq<(Seq<char>, Seq<char>)>,
}

/// Whether an argument is an option: it starts with a dash and has more
/// than the dash.
pub open spec fn is_flag(a: Seq<char>) -> bool {
    a.len() > 1 && a[0] == '-'
}

/// The number of leading dashes.
pub open spec fn dash_prefix_len(a: Seq<char>) -> int
    decreases a.len(),
{
    if a.len() == 0 || a[0] != '-' {
        0
    } else {
        1 + dash_prefix_len(a.drop_first())
    }
}

/// An option key is its argument with every leading dash removed.
pub open spec fn strip_dashes(a: Seq<char>) -> Seq<char> {
    if 0 <= dash_prefix_len(a) <= a.len() {
        a.skip(dash_prefix_len(a))
    } else {
        a
    }
}

/// Any dash-free stretch ending at a non-dash or at the end locates the
/// dash prefix.
proof fn lemma_dash_prefix_unique(a: Seq<char>, k: int)
    requires
        0 <= k <= a.len(),
        forall|j: int| 0 <= j < k ==> a[j] == '-',
        k < a.len() ==> a[k] != '-',
    ensures
        dash_prefix_len(a) == k,
    decreases a.len(),
{
    if k == 0 {
    } else {
        assert(a[0] == '-');
        let t = a.drop_first();
        assert(forall|j: int| 0 <= j < k - 1 ==> #[trigger] t[j] == a[j + 1]);
        if k - 1 < t.len() {
            assert(t[k - 1] == a[k]);
        }
        lemma_dash_prefix_unique(t, k - 1);
    }
}

/// Parses the arguments after the command name, carrying the positional
/// argument and the options gathered so far.
pub open spec fn spec_parse_rest(
    args: Seq<Seq<char>>,
    positional: Option<Seq<char>>,
    options: Seq<(Seq<char>, Seq<char>)>,
) -> (Option<Seq<char>>, Seq<(Seq<char>, Seq<char>)>)
    decreases args.len(),
{
    if args.len() == 0 {
        (positional, options)
    } else if is_flag(args[0]) {
        let key = strip_dashes(args[0]);
        if args.len() >= 2 {
            spec_parse_rest(args.skip(2), positional, options.push((key, args[1])))
        } else {
            spec_parse_rest(args.skip(1), positional, options.push((key, Seq::empty())))
        }
    } else if positional is None {
        spec_parse_rest(args.drop_first(), Some(args[0]), options)
    } else {
        spec_parse_rest(args.drop_first(), positional, options)
    }
}

/// Parses a whole command line: the first argument is the command; with no
/// arguments there is no command.
pub open spec fn spec_parse_args(args: Seq<Seq<char>>) -> Option<ParsedCommandView> {
    if args.len() == 0 {
        None
    } else {
        let (positional, options) = spec_parse_rest(args.drop_first(), None, Seq::empty());
        Some(ParsedCommandView { command: args[0], positional, options })
    }
}

/// The option key of an argument: the argument without its leading dashes.
fn strip_dashes_exec(a: &str) -> (r: String)
    ensures
        r@ == strip_dashes(a@),
{
    let n = a.unicode_len();
    let mut k: usize = 0;
    while k < n && a.get_char(k) == '-'
        invariant
            k <= n,
            n == a@.len(),
            forall|j: int| 0 <= j < k ==> a@[j] == '-',
        decreases n - k,
    {
        k = k + 1;
    }
    proof {
        lemma_dash_prefix_unique(a@, k as int);
    }
    let rest = a.substring_char(k, n);
    proof {
        assert(rest@ =~= a@.skip(k as int));
    }
    String::from_str(rest)
}

/// Parses the command line. `None` when no arguments were given at all.
pub fn parse_args(args: &Vec<String>) -> (r: Option<ParsedCommand>)
    ensures
        match r {
            Some(p) => spec_parse_args(args.deep_view()) == Some(
                ParsedCommandView {
                    command: p.command@,
                    positional: p.positional.deep_view(),
                    options: p.options.deep_view(),
                },
            ),
            None => spec_parse_args(args.deep_view()) is None,
        },
{
    let ghost av = args.deep_view();
    let n = args.len();
    if n == 0 {
        return None;
    }
    let command = args[0].clone();
    let mut positional: Option<String> = None;
    let mut options: Vec<(String, String)> = Vec::new();
    let mut i: usize = 1;
    proof {
        assert(av[0] == args@[0]@);
        assert(av.skip(1) =~= av.drop_first());
        assert(options.deep_view() =~= Seq::<(Seq<char>, Seq<char>)>::empty());
    }
    while i < n
        invariant
            1 <= i <= n,
            n == av.len(),
            av == args.deep_view(),
            n == args@.len(),
            spec_parse_rest(av.skip(1), None, Seq::empty()) == spec_parse_rest(
                av.skip(i as int),
                positional.deep_view(),
                options.deep_view(),
            ),
        decreases n - i,
    {
        let ghost sj = av.skip(i as int);
        proof {
            assert(sj[0] == av[i as int]);
            assert(av[i as int] == args@[i as int]@);
            assert(sj.drop_first() =~= av.skip(i as int + 1));
            if i + 2 <= n {
                assert(sj.skip(2) =~= av.skip(i as int + 2));
            }
        }
        let arg = &args[i];
        let arg_len = arg.as_str().unicode_len();
        let is_opt = arg_len > 1 && arg.as_str().get_char(0) == '-';
        if is_opt {
            let key = strip_dashes_exec(arg.as_str());
            let ghost prev = options.deep_view();
            if i + 1 < n {
                let value = args[i + 1].clone();
                proof {
                    assert(sj[1] == av[i as int + 1]);
                    assert(av[i as int + 1] == args@[i as int + 1]@);
                }
                options.push((key, value));
                proof {
                    assert(options.deep_view() =~= prev.push((strip_dashes(sj[0]), sj[1])));
                }
                i = i + 2;
            } else {
                options.push((key, String::new()));
                proof {
                    assert(options.deep_view() =~= prev.push(
                        (strip_dashes(sj[0]), Seq::<char>::empty()),
                    ));
                    assert(sj.len() == 1);
                    assert(sj.skip(1) =~= av.skip(i as int + 1));
                }
                i = i + 1;
            }
        } else if positional.is_none() {
            positional = Some(args[i].clone());
            i = i + 1;
        } else {
            i = i + 1;
        }
    }
    proof {
        assert(av.skip(n as int).len() == 0);
    }
    Some(ParsedCommand { command, positional, options })
}

impl ParsedCommand {
    /// The value of the option `key`; with a repeated key, the last
    /// occurrence wins, as if each later value had overwritten the earlier.
    pub fn get_option(&self, key: &str) -> (r: Option<&String>)
        ensures
            match r {
                Some(v) => exists|i: int|
                    {
                        &&& 0 <= i < self.options@.len()
                        &&& #[trigger] self.options.deep_view()[i] == (key@, v@)
                        &&& forall|j: int|
                            i < j < self.options@.len() ==> (
                            #[trigger] self.options.deep_view()[j]).0 != key@
                    },
                None => forall|i: int|
                    0 <= i < self.options@.len() ==> (#[trigger] self.options.deep_view()[i]).0
                        != key@,
            },
    {
        let n = self.options.len();
        let mut i: usize = n;
        while i > 0
            invariant
                i <= n,
                n == self.options@.len(),
                forall|j: int|
                    i <= j < n ==> (#[trigger] self.options.deep_view()[j]).0 != key@,
            decreases i,
        {
            i = i - 1;
            if crate::text::str_eq(self.options[i].0.as_str(), key) {
                proof {
                    assert(self.options.deep_view()[i as int] == (key@, self.options@[i as int].1@));
                }
                return Some(&self.options[i].1);
            }
            proof {
                assert((self.options.deep_view()[i as int]).0 != key@);
            }
        }
        None
    }

    /// The command this line names, if the name is one of the known
    /// commands.
    pub fn to_command(&self) -> (r: Option<CommandKind>)
        ensures
            r == spec_command_of(self.command@),
    {
        crate::commands::command_of(self.command.as_str())
    }
}

/// Which command a name denotes.
pub open spec fn spec_command_of(name: Seq<char>) -> Option<CommandKind> {
    if name == "show"@ {
        Some(CommandKind::Show)
    } else if name == "remove"@ {
        Some(CommandKind::Remove)
    } else if name == "complete"@ {
        Some(CommandKind::Complete)
    } else if name == "update"@ {
        Some(CommandKind::Update)
    } else if name == "sort"@ {
        Some(CommandKind::Sort)
    } else if name == "help"@ {
        Some(CommandKind::Help)
    } else if name == "config"@ {
        Some(CommandKind::Config)
    } else {
        None
    }
}

} // verus!
