//! The command line.

use vstd::prelude::*;

use crate::number::{read_u16, unsigned, up_to};
use crate::text::{first_of, lemma_first_of, opt, same, split_once, views};

verus! {

/// What is printed where help is asked for.
pub const HELP: &'static str =
    "Lyra — interactive local song generation with MiniMax-Music3 (audio.cpp)

USAGE:
    lyra [OPTIONS]              launch the TUI
    lyra web [OPTIONS]          launch the web UI (same features)
    lyra tui [OPTIONS]          launch the TUI explicitly

OPTIONS:
    --bin <path>       audiocpp_cli binary (default: auto-detect under ~/audio.cpp/build)
    --model <dir>      MiniMax-Music3-GGUF directory (default: ~/models/MiniMax-Music3-GGUF)
    --backend <name>   cuda | metal | vulkan | hip | cpu (default: inferred from the binary)
    --host <addr>      web bind host (default: 127.0.0.1)
    --port <port>      web bind port (default: 8282)
    --dry-run          print the audiocpp_cli command and exit
    --print-config     print resolved paths/components, warnings, and exit
    -V, --version      print the version and exit
    -h, --help         show this help

TUI keys: Tab switches tabs · ↑/↓ move · ←/→ adjust · Enter edit · g generate · ? help
Web UI:   http://127.0.0.1:8282
";

/// What is asked for on the command line.
pub struct Options {
    pub web: bool,
    pub bin: Option<String>,
    pub model: Option<String>,
    pub backend: Option<String>,
    pub host: String,
    pub port: u16,
    pub dry_run: bool,
    pub print_config: bool,
}

/// What [`Options`] hold.
#[verifier::ext_equal]
pub struct OptionsV {
    pub web: bool,
    pub bin: Option<Seq<char>>,
    pub model: Option<Seq<char>>,
    pub backend: Option<Seq<char>>,
    pub host: Seq<char>,
    pub port: u16,
    pub dry_run: bool,
    pub print_config: bool,
}

impl View for Options {
    type V = OptionsV;

    open spec fn view(&self) -> OptionsV {
        OptionsV {
            web: self.web,
            bin: opt(self.bin),
            model: opt(self.model),
            backend: opt(self.backend),
            host: self.host@,
            port: self.port,
            dry_run: self.dry_run,
            print_config: self.print_config,
        }
    }
}

/// What the command line comes to.
pub enum Outcome {
    /// To do what is asked for.
    Run(Options),
    /// To print the version.
    Version,
    /// To print the help.
    Help,
    /// To say that the port is no port.
    BadPort,
    /// To say that an argument is not known.
    Unknown(String),
}

/// What an [`Outcome`] holds.
#[verifier::ext_equal]
pub enum OutcomeV {
    Run(OptionsV),
    Version,
    Help,
    BadPort,
    Unknown(Seq<char>),
}

impl View for Outcome {
    type V = OutcomeV;

    open spec fn view(&self) -> OutcomeV {
        match self {
            Outcome::Run(o) => OutcomeV::Run(o@),
            Outcome::Version => OutcomeV::Version,
            Outcome::Help => OutcomeV::Help,
            Outcome::BadPort => OutcomeV::BadPort,
            Outcome::Unknown(s) => OutcomeV::Unknown(s@),
        }
    }
}

/// What holds where nothing is asked for.
pub open spec fn usual() -> OptionsV {
    OptionsV {
        web: false,
        bin: None,
        model: None,
        backend: None,
        host: "127.0.0.1"@,
        port: 8282,
        dry_run: false,
        print_config: false,
    }
}

/// The flag in an argument: what stands before the first equals sign.
pub open spec fn flag_of(arg: Seq<char>) -> Seq<char> {
    arg.take(first_of(arg, '='))
}

/// The value that goes with the first argument, and how many arguments both take: what stands
/// behind its equals sign, or else the next argument, if there is one.
pub open spec fn value_of(args: Seq<Seq<char>>) -> (Option<Seq<char>>, int) {
    let k = first_of(args[0], '=');
    if k < args[0].len() {
        (Some(args[0].skip(k + 1)), 1)
    } else if args.len() > 1 {
        (Some(args[1]), 2)
    } else {
        (None, 1)
    }
}

/// A port, where the value is one.
pub open spec fn port_of(value: Option<Seq<char>>) -> Option<nat> {
    match value {
        Some(s) => up_to(unsigned(s), u16::MAX as nat),
        None => None,
    }
}

/// What the arguments come to, on top of what is asked for so far.
pub open spec fn parsed(o: OptionsV, args: Seq<Seq<char>>) -> OutcomeV
    decreases args.len(),
{
    if args.len() == 0 {
        OutcomeV::Run(o)
    } else {
        let flag = flag_of(args[0]);
        let (value, n) = value_of(args);
        if flag == "web"@ {
            parsed(OptionsV { web: true, ..o }, args.skip(1))
        } else if flag == "tui"@ {
            parsed(OptionsV { web: false, ..o }, args.skip(1))
        } else if flag == "--bin"@ {
            parsed(OptionsV { bin: value, ..o }, args.skip(n))
        } else if flag == "--model"@ {
            parsed(OptionsV { model: value, ..o }, args.skip(n))
        } else if flag == "--backend"@ {
            parsed(OptionsV { backend: value, ..o }, args.skip(n))
        } else if flag == "--host"@ {
            parsed(
                OptionsV {
                    host: match value {
                        Some(h) => h,
                        None => o.host,
                    },
                    ..o
                },
                args.skip(n),
            )
        } else if flag == "--port"@ {
            match port_of(value) {
                Some(p) => parsed(OptionsV { port: p as u16, ..o }, args.skip(n)),
                None => OutcomeV::BadPort,
            }
        } else if flag == "--dry-run"@ {
            parsed(OptionsV { dry_run: true, ..o }, args.skip(1))
        } else if flag == "--print-config"@ {
            parsed(OptionsV { print_config: true, ..o }, args.skip(1))
        } else if flag == "-V"@ || flag == "--version"@ {
            OutcomeV::Version
        } else if flag == "-h"@ || flag == "--help"@ {
            OutcomeV::Help
        } else {
            OutcomeV::Unknown(flag)
        }
    }
}

fn value_at(args: &Vec<String>, i: usize, inline: &Option<String>) -> (r: (Option<String>, usize))
    requires
        i < args@.len(),
        opt(*inline) == (if first_of(args@[i as int]@, '=') < args@[i as int]@.len() {
            Some(args@[i as int]@.skip(first_of(args@[i as int]@, '=') + 1))
        } else {
            None
        }),
    ensures
        opt(r.0) == value_of(views(args@).skip(i as int)).0,
        r.1 == i + value_of(views(args@).skip(i as int)).1,
        r.1 <= args@.len(),
{
    let ghost rest = views(args@).skip(i as int);
    assert(rest[0] == args@[i as int]@);
    let n: usize = args.len();
    match inline {
        Some(v) => (Some(v.clone()), i + 1),
        None => if i + 1 < n {
            assert(rest[1] == args@[i + 1]@);
            (Some(args[i + 1].clone()), i + 2)
        } else {
            (None, i + 1)
        },
    }
}

/// Reads the arguments of the command line.
pub fn parse_args(args: &Vec<String>) -> (r: Outcome)
    ensures
        r@ == parsed(usual(), views(args@)),
{
    let mut o = Options {
        web: false,
        bin: None,
        model: None,
        backend: None,
        host: "127.0.0.1".to_string(),
        port: 8282,
        dry_run: false,
        print_config: false,
    };
    let ghost all = views(args@);
    let mut i: usize = 0;
    assert(all.skip(0) =~= all);
    assert(o@ =~= usual());
    while i < args.len()
        invariant
            i <= args@.len(),
            all == views(args@),
            parsed(usual(), all) == parsed(o@, all.skip(i as int)),
        decreases args@.len() - i,
    {
        let ghost rest = all.skip(i as int);
        let ghost arg = args@[i as int]@;
        assert(rest[0] == arg);
        assert(rest.skip(1) =~= all.skip(i + 1));
        assert(rest.len() > 1 ==> rest.skip(2) =~= all.skip(i + 2));
        let (flag, inline) = match split_once(args[i].as_str(), '=') {
            Some(p) => (p.0, Some(p.1)),
            None => (args[i].clone(), None),
        };
        assert(flag@ == flag_of(arg)) by {
            assert(arg.take(arg.len() as int) =~= arg);
        }
        let flag = flag.as_str();
        let (value, next) = value_at(args, i, &inline);
        if same(flag, "web") {
            o.web = true;
            i = i + 1;
        } else if same(flag, "tui") {
            o.web = false;
            i = i + 1;
        } else if same(flag, "--bin") {
            o.bin = value;
            i = next;
        } else if same(flag, "--model") {
            o.model = value;
            i = next;
        } else if same(flag, "--backend") {
            o.backend = value;
            i = next;
        } else if same(flag, "--host") {
            if let Some(v) = value {
                o.host = v;
            }
            i = next;
        } else if same(flag, "--port") {
            let port = match value {
                Some(v) => read_u16(v.as_str()),
                None => None,
            };
            match port {
                Some(p) => {
                    o.port = p;
                    i = next;
                },
                None => {
                    return Outcome::BadPort;
                },
            }
        } else if same(flag, "--dry-run") {
            o.dry_run = true;
            i = i + 1;
        } else if same(flag, "--print-config") {
            o.print_config = true;
            i = i + 1;
        } else if same(flag, "-V") || same(flag, "--version") {
            return Outcome::Version;
        } else if same(flag, "-h") || same(flag, "--help") {
            return Outcome::Help;
        } else {
            return Outcome::Unknown(flag.to_string());
        }
    }
    assert(all.skip(i as int) =~= Seq::<Seq<char>>::empty());
    Outcome::Run(o)
}

/// Whether a host can be reached from this machine alone.
pub open spec fn local(host: Seq<char>) -> bool {
    host == "127.0.0.1"@ || host == "localhost"@ || host == "::1"@
}

/// Whether a host can be reached from this machine alone.
pub fn is_local(host: &str) -> (r: bool)
    ensures
        r == local(host@),
{
    same(host, "127.0.0.1") || same(host, "localhost") || same(host, "::1")
}

/// A value behind an equals sign means the same as one in the next argument.
pub proof fn law_values_can_be_inline(
    o: OptionsV,
    flag: Seq<char>,
    value: Seq<char>,
    rest: Seq<Seq<char>>,
)
    requires
        flag == "--bin"@ || flag == "--model"@ || flag == "--backend"@ || flag == "--host"@ || flag
            == "--port"@,
    ensures
        parsed(o, seq![flag + seq!['='] + value] + rest) == parsed(o, seq![flag, value] + rest),
{
    reveal_strlit("--bin");
    reveal_strlit("--model");
    reveal_strlit("--backend");
    reveal_strlit("--host");
    reveal_strlit("--port");
    reveal_strlit("web");
    reveal_strlit("tui");
    let arg = flag + seq!['='] + value;
    let a = seq![arg] + rest;
    let b = seq![flag, value] + rest;
    lemma_first_of(arg, '=');
    lemma_first_of(flag, '=');
    assert(forall|i: int| 0 <= i < flag.len() ==> flag[i] != '=');
    assert(arg[flag.len() as int] == '=');
    assert(forall|i: int| 0 <= i < flag.len() ==> arg[i] == flag[i]);
    assert(first_of(arg, '=') == flag.len());
    assert(first_of(flag, '=') == flag.len());
    assert(flag_of(arg) =~= flag);
    assert(flag_of(flag) =~= flag);
    assert(arg.skip(flag.len() as int + 1) =~= value);
    assert(a[0] == arg);
    assert(b[0] == flag);
    assert(b[1] == value);
    assert(a.skip(1) =~= rest);
    assert(b.skip(2) =~= rest);
}

} // verus!
