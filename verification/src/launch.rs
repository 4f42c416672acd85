//! Start-up decisions of the service: command-line flags, the default upstream feed and the
//! socket to listen on.
use vstd::prelude::*;
use vstd::string::StringExecFns;

use crate::text::{chars_of, same_chars};

verus! {

broadcast use vstd::string::group_string_axioms;

/// What the command line asks for.
#[derive(Debug, Clone, Copy, PartialEq, Eq, Structural)]
pub enum CliAction {
    PrintVersion,
    PrintHelp,
    Serve,
}

/// Some argument is exactly `a` or `b`.
pub open spec fn has_flag(args: Seq<Seq<char>>, a: Seq<char>, b: Seq<char>) -> bool {
    exists|i: int| 0 <= i < args.len() && (#[trigger] args[i] == a || args[i] == b)
}

/// `--version`/`-V` anywhere among the arguments wins over `--help`/`-h`; with neither the
/// service runs.
pub open spec fn cli_action_spec(args: Seq<Seq<char>>) -> CliAction {
    if has_flag(args, "--version"@, "-V"@) {
        CliAction::PrintVersion
    } else if has_flag(args, "--help"@, "-h"@) {
        CliAction::PrintHelp
    } else {
        CliAction::Serve
    }
}

fn any_is(args: &Vec<String>, a: &str, b: &str) -> (r: bool)
    ensures
        r == has_flag(args.deep_view(), a@, b@),
{
    let av = chars_of(a);
    let bv = chars_of(b);
    let ghost all = args.deep_view();
    for i in 0..args.len()
        invariant
            all == args.deep_view(),
            av@ == a@,
            bv@ == b@,
            forall|m: int| 0 <= m < i ==> !(#[trigger] all[m] == a@ || all[m] == b@),
    {
        let cv = chars_of(args[i].as_str());
        assert(all[i as int] == args[i as int]@);
        if same_chars(cv.as_slice(), av.as_slice()) || same_chars(cv.as_slice(), bv.as_slice()) {
            return true;
        }
    }
    false
}

proof fn lemma_flag_in_args(args: &Vec<String>, a: Seq<char>, b: Seq<char>)
    ensures
        has_flag(args.deep_view(), a, b) <==> exists|i: int|
            0 <= i < args.len() && (#[trigger] args[i]@ == a || args[i]@ == b),
{
    let dv = args.deep_view();
    if has_flag(dv, a, b) {
        let i = choose|i: int| 0 <= i < dv.len() && (#[trigger] dv[i] == a || dv[i] == b);
        assert(dv[i] == args[i]@);
    }
    if exists|i: int| 0 <= i < args.len() && (#[trigger] args[i]@ == a || args[i]@ == b) {
        let i = choose|i: int| 0 <= i < args.len() && (#[trigger] args[i]@ == a || args[i]@ == b);
        assert(dv[i] == args[i]@);
    }
}

/// What the command-line arguments `args` (the program name among them) ask for.
pub fn cli_action(args: &Vec<String>) -> (r: CliAction)
    ensures
        r == cli_action_spec(args.deep_view()),
        (exists|i: int|
            0 <= i < args.len() && (#[trigger] args[i]@ == "--version"@ || args[i]@ == "-V"@))
            ==> r == CliAction::PrintVersion,
        !(exists|i: int|
            0 <= i < args.len() && (#[trigger] args[i]@ == "--version"@ || args[i]@ == "-V"@))
            && (exists|i: int|
            0 <= i < args.len() && (#[trigger] args[i]@ == "--help"@ || args[i]@ == "-h"@))
            ==> r == CliAction::PrintHelp,
        !(exists|i: int|
            0 <= i < args.len() && (#[trigger] args[i]@ == "--version"@ || args[i]@ == "-V"@
                || args[i]@ == "--help"@ || args[i]@ == "-h"@)) ==> r == CliAction::Serve,
{
    proof {
        lemma_flag_in_args(args, "--version"@, "-V"@);
        lemma_flag_in_args(args, "--help"@, "-h"@);
    }
    if any_is(args, "--version", "-V") {
        CliAction::PrintVersion
    } else if any_is(args, "--help", "-h") {
        CliAction::PrintHelp
    } else {
        CliAction::Serve
    }
}

/// The feed read when `NBP_URL` is not set.
pub open spec fn default_upstream_url() -> Seq<char> {
    "https://rss.nbp.pl/kursy/TabelaA.xml"@
}

/// The feed to read: the configured one, else the NBP "Tabela A" feed.
pub fn upstream_url(configured: Option<String>) -> (r: String)
    ensures
        r@ == match configured {
            Some(u) => u@,
            None => default_upstream_url(),
        },
        configured is None ==> r@ == "https://rss.nbp.pl/kursy/TabelaA.xml"@,
        configured matches Some(u) ==> r@ == u@,
{
    match configured {
        Some(u) => u,
        None => String::from_str("https://rss.nbp.pl/kursy/TabelaA.xml"),
    }
}

/// Where to listen.
#[derive(Debug, Clone, PartialEq)]
pub enum BindTarget {
    /// A Unix socket at this path.
    Unix(String),
    /// A TCP address.
    Tcp(String),
}

/// The address used when `NBP_ADDR` is not set.
pub open spec fn default_address() -> Seq<char> {
    "127.0.0.1:3000"@
}

/// The configured address, else the default; one that starts with `/` is a Unix socket path.
pub fn bind_target(configured: Option<String>) -> (r: BindTarget)
    ensures
        ({
            let addr = match configured {
                Some(a) => a@,
                None => default_address(),
            };
            match r {
                BindTarget::Unix(p) => p@ == addr && addr.len() > 0 && addr[0] == '/',
                BindTarget::Tcp(a) => a@ == addr && !(addr.len() > 0 && addr[0] == '/'),
            }
        }),
        configured is None ==> (r matches BindTarget::Tcp(a) && a@ == "127.0.0.1:3000"@),
        configured is Some && configured->0@.len() > 0 && configured->0@[0] == '/' ==> (
        r matches BindTarget::Unix(p) && p@ == configured->0@),
        configured is Some && !(configured->0@.len() > 0 && configured->0@[0] == '/') ==> (
        r matches BindTarget::Tcp(a) && a@ == configured->0@),
{
    proof {
        reveal_strlit("127.0.0.1:3000");
    }
    let addr = match configured {
        Some(a) => a,
        None => String::from_str("127.0.0.1:3000"),
    };
    let cs = chars_of(addr.as_str());
    if cs.len() > 0 && cs[0] == '/' {
        BindTarget::Unix(addr)
    } else {
        BindTarget::Tcp(addr)
    }
}

/// How a Unix listener is named in the log: its path where it has one that is valid UTF-8,
/// else `unix socket`.
pub fn unix_socket_label(path: Option<String>) -> (r: String)
    ensures
        r@ == match path {
            Some(p) => p@,
            None => "unix socket"@,
        },
{
    match path {
        Some(p) => p,
        None => String::from_str("unix socket"),
    }
}

/// `--help` or `-h` anywhere, with neither `--version` nor `-V`, asks for the help text; each
/// of the four flags alone is recognised.
pub proof fn law_flags_recognised(args: Seq<Seq<char>>)
    ensures
        (exists|i: int| 0 <= i < args.len() && (#[trigger] args[i] == "--version"@ || args[i]
            == "-V"@)) ==> cli_action_spec(args) == CliAction::PrintVersion,
        !(exists|i: int| 0 <= i < args.len() && (#[trigger] args[i] == "--version"@ || args[i]
            == "-V"@)) && (exists|i: int| 0 <= i < args.len() && (#[trigger] args[i] == "--help"@
            || args[i] == "-h"@)) ==> cli_action_spec(args) == CliAction::PrintHelp,
        cli_action_spec(seq![seq!['n'], "--help"@]) == CliAction::PrintHelp,
        cli_action_spec(seq![seq!['n'], "-h"@]) == CliAction::PrintHelp,
        cli_action_spec(seq![seq!['n'], "--version"@]) == CliAction::PrintVersion,
        cli_action_spec(seq![seq!['n'], "-V"@]) == CliAction::PrintVersion,
{
    let h = seq![seq!['n'], "--help"@];
    let hs = seq![seq!['n'], "-h"@];
    let v = seq![seq!['n'], "--version"@];
    let vs = seq![seq!['n'], "-V"@];
    reveal_strlit("--help");
    reveal_strlit("-h");
    reveal_strlit("--version");
    reveal_strlit("-V");
    assert(h[1] == "--help"@);
    assert(hs[1] == "-h"@);
    assert(v[1] == "--version"@);
    assert(vs[1] == "-V"@);
    assert("--version"@.len() == 9 && "-V"@.len() == 2);
    assert(seq!['n'] != "--version"@ && seq!['n'] != "-V"@);
    assert("--help"@ != "--version"@ && "--help"@ != "-V"@) by {
        assert("--help"@[2] != "--version"@[2]);
    }
    assert("-h"@ != "--version"@ && "-h"@ != "-V"@) by {
        assert("-h"@[1] != "-V"@[1]);
    }
    assert(!has_flag(h, "--version"@, "-V"@)) by {
        assert forall|i: int| 0 <= i < h.len() implies !(#[trigger] h[i] == "--version"@
            || h[i] == "-V"@) by {
            if i == 0 {
            } else {
            }
        }
    }
    assert(!has_flag(hs, "--version"@, "-V"@)) by {
        assert forall|i: int| 0 <= i < hs.len() implies !(#[trigger] hs[i] == "--version"@
            || hs[i] == "-V"@) by {
            if i == 0 {
            } else {
            }
        }
    }
    assert(has_flag(h, "--help"@, "-h"@));
    assert(has_flag(hs, "--help"@, "-h"@));
    assert(has_flag(v, "--version"@, "-V"@));
    assert(has_flag(vs, "--version"@, "-V"@));
}

} // verus!
