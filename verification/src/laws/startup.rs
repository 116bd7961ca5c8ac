//! The command line, paths and names.

use vstd::prelude::*;

use crate::cli::{flag_of, local, parsed, usual, value_of, OptionsV, OutcomeV};
use crate::clock::{nanoseconds, out_named, seconds};
use crate::laws::texts::{lacks, law_first_position};
use crate::number::{decimal, is_digit, law_decimal_reads_back};
use crate::path::{expanded, path_join, resolved, rooted, settings_dir, steps, under};
use crate::text::{begins, ends, lemma_split_len, split};

verus! {

// --- the command line ------------------------------------------------------------------------------

proof fn lemma_flags()
    ensures
        "web"@.len() == 3 && lacks("web"@, '='),
        "tui"@.len() == 3 && lacks("tui"@, '='),
        "--bin"@.len() == 5 && lacks("--bin"@, '='),
        "--model"@.len() == 7 && lacks("--model"@, '='),
        "--backend"@.len() == 9 && lacks("--backend"@, '='),
        "--host"@.len() == 6 && lacks("--host"@, '='),
        "--port"@.len() == 6 && lacks("--port"@, '='),
        "--dry-run"@.len() == 9 && lacks("--dry-run"@, '='),
        "--print-config"@.len() == 14 && lacks("--print-config"@, '='),
        "-V"@.len() == 2 && lacks("-V"@, '='),
        "--version"@.len() == 9 && lacks("--version"@, '='),
        "-h"@.len() == 2 && lacks("-h"@, '='),
        "--help"@.len() == 6 && lacks("--help"@, '='),
        "web"@[0] == 'w' && "tui"@[0] == 't',
        "--model"@[2] == 'm' && "--backend"@[2] == 'b' && "--dry-run"@[2] == 'd',
        "--host"@[2] == 'h' && "--port"@[2] == 'p' && "--help"@[2] == 'h' && "--help"@[3] == 'e',
        "--host"@[3] == 'o' && "--version"@[2] == 'v' && "-V"@[1] == 'V' && "-h"@[1] == 'h',
{
    reveal_strlit("web");
    reveal_strlit("tui");
    reveal_strlit("--bin");
    reveal_strlit("--model");
    reveal_strlit("--backend");
    reveal_strlit("--host");
    reveal_strlit("--port");
    reveal_strlit("--dry-run");
    reveal_strlit("--print-config");
    reveal_strlit("-V");
    reveal_strlit("--version");
    reveal_strlit("-h");
    reveal_strlit("--help");
}

proof fn lemma_alone(flag: Seq<char>, args: Seq<Seq<char>>)
    requires
        lacks(flag, '='),
        args.len() > 0,
        args[0] == flag,
    ensures
        flag_of(args[0]) == flag,
        args.len() > 1 ==> value_of(args) == (Some(args[1]), 2int),
        args.len() == 1 ==> value_of(args) == (None::<Seq<char>>, 1int),
{
    assert(flag.take(flag.len() as int) =~= flag);
    law_first_position(flag, '=', flag.len() as int);
}

/// Each flag sets its own option to the argument behind it, or turns it on, and changes no other; the
/// arguments that follow are read in the same way.
pub proof fn law_flags_set_their_options(
    o: OptionsV,
    value: Seq<char>,
    port: u16,
    rest: Seq<Seq<char>>,
)
    ensures
        parsed(o, seq!["--bin"@, value] + rest) == parsed(OptionsV { bin: Some(value), ..o }, rest),
        parsed(o, seq!["--model"@, value] + rest) == parsed(OptionsV { model: Some(value), ..o }, rest),
        parsed(o, seq!["--backend"@, value] + rest) == parsed(
            OptionsV { backend: Some(value), ..o },
            rest,
        ),
        parsed(o, seq!["--host"@, value] + rest) == parsed(OptionsV { host: value, ..o }, rest),
        parsed(o, seq!["--port"@, decimal(port as nat)] + rest) == parsed(
            OptionsV { port, ..o },
            rest,
        ),
        parsed(o, seq!["web"@] + rest) == parsed(OptionsV { web: true, ..o }, rest),
        parsed(o, seq!["tui"@] + rest) == parsed(OptionsV { web: false, ..o }, rest),
        parsed(o, seq!["--dry-run"@] + rest) == parsed(OptionsV { dry_run: true, ..o }, rest),
        parsed(o, seq!["--print-config"@] + rest) == parsed(
            OptionsV { print_config: true, ..o },
            rest,
        ),
        parsed(o, Seq::<Seq<char>>::empty()) == OutcomeV::Run(o),
{
    lemma_flags();
    law_decimal_reads_back(port as nat);
    lemma_pair_of("--bin"@, value, rest);
    lemma_pair_of("--model"@, value, rest);
    lemma_pair_of("--backend"@, value, rest);
    lemma_pair_of("--host"@, value, rest);
    lemma_pair_of("--port"@, decimal(port as nat), rest);
    lemma_one_of("web"@, rest);
    lemma_one_of("tui"@, rest);
    lemma_one_of("--dry-run"@, rest);
    lemma_one_of("--print-config"@, rest);
}

proof fn lemma_pair_of(flag: Seq<char>, value: Seq<char>, rest: Seq<Seq<char>>)
    requires
        lacks(flag, '='),
    ensures
        ({
            let args = seq![flag, value] + rest;
            &&& args.len() > 0
            &&& flag_of(args[0]) == flag
            &&& value_of(args) == (Some(value), 2int)
            &&& args.skip(2) == rest
        }),
{
    let args = seq![flag, value] + rest;
    lemma_alone(flag, args);
    assert(args[1] == value);
    assert(args.skip(2) =~= rest);
}

proof fn lemma_one_of(flag: Seq<char>, rest: Seq<Seq<char>>)
    requires
        lacks(flag, '='),
    ensures
        ({
            let args = seq![flag] + rest;
            &&& args.len() > 0
            &&& flag_of(args[0]) == flag
            &&& args.skip(1) == rest
        }),
{
    let args = seq![flag] + rest;
    lemma_alone(flag, args);
    assert(args.skip(1) =~= rest);
}

/// The version and the help are asked for by their flags, whatever follows; a port that is no number of
/// 16 bits is refused, and so is a flag that there is not, by its name.
pub proof fn law_other_flags_end_the_reading(
    o: OptionsV,
    flag: Seq<char>,
    value: Seq<char>,
    rest: Seq<Seq<char>>,
    i: int,
)
    requires
        lacks(flag, '='),
        0 <= i < value.len(),
        !is_digit(value[i]),
        i > 0 || value[0] != '+',
    ensures
        parsed(o, seq!["-V"@] + rest) is Version,
        parsed(o, seq!["--version"@] + rest) is Version,
        parsed(o, seq!["-h"@] + rest) is Help,
        parsed(o, seq!["--help"@] + rest) is Help,
        parsed(o, seq!["--port"@, value] + rest) is BadPort,
        !(flag == "web"@ || flag == "tui"@ || flag == "--bin"@ || flag == "--model"@ || flag
            == "--backend"@ || flag == "--host"@ || flag == "--port"@ || flag == "--dry-run"@ || flag
            == "--print-config"@ || flag == "-V"@ || flag == "--version"@ || flag == "-h"@ || flag
            == "--help"@) ==> parsed(o, seq![flag] + rest) == OutcomeV::Unknown(flag),
{
    lemma_flags();
    lemma_one_of("-V"@, rest);
    lemma_one_of("--version"@, rest);
    lemma_one_of("-h"@, rest);
    lemma_one_of("--help"@, rest);
    lemma_one_of(flag, rest);
    lemma_pair_of("--port"@, value, rest);
    if i > 0 {
        assert(value.skip(1)[i - 1] == value[i]);
    }
}

/// Where nothing is asked for, the terminal interface runs, and the web one would listen on this
/// machine alone.
pub proof fn law_nothing_asked_for_is_the_usual()
    ensures
        parsed(usual(), Seq::<Seq<char>>::empty()) == OutcomeV::Run(usual()),
        !usual().web && !usual().dry_run && !usual().print_config,
        usual().bin is None && usual().model is None && usual().backend is None,
        usual().host == "127.0.0.1"@ && usual().port == 8282,
        local(usual().host),
{
}

/// Only the names and addresses of this machine itself are local.
pub proof fn law_only_this_machine_is_local(host: Seq<char>)
    ensures
        local(host) <==> host == "127.0.0.1"@ || host == "localhost"@ || host == "::1"@,
        !local("0.0.0.0"@),
{
    reveal_strlit("0.0.0.0");
    reveal_strlit("127.0.0.1");
    reveal_strlit("localhost");
    reveal_strlit("::1");
    assert("0.0.0.0"@.len() == 7 && "127.0.0.1"@.len() == 9 && "localhost"@.len() == 9 && "::1"@.len()
        == 3);
}

// --- paths -----------------------------------------------------------------------------------------

/// A path goes behind another with one slash between them; one that starts at the root stands alone.
pub proof fn law_paths_are_joined_by_a_slash(base: Seq<char>, rest: Seq<char>)
    requires
        rest.len() == 0 || rest[0] != '/',
    ensures
        base.len() > 0 && base.last() != '/' ==> path_join(base, rest) == base + seq!['/'] + rest,
        base.len() > 0 && base.last() == '/' ==> path_join(base, rest) == base + rest,
        base.len() == 0 ==> path_join(base, rest) == rest,
        path_join(base, seq!['/'] + rest) == seq!['/'] + rest,
{
    reveal_strlit("/");
    assert("/"@ =~= seq!['/']);
    assert(base.len() == 0 ==> base + rest =~= rest);
}

/// A tilde alone or before a slash stands for the home directory; a path that begins otherwise is taken
/// as it is.
pub proof fn law_tilde_is_home(home: Seq<char>, rest: Seq<char>, p: Seq<char>)
    ensures
        expanded(seq!['~', '/'] + rest, home) == path_join(home, rest),
        expanded(seq!['~'], home) == home,
        p.len() == 0 || p[0] != '~' ==> expanded(p, home) == p,
        p.len() > 1 && p[1] != '/' ==> expanded(p, home) == p,
{
    reveal_strlit("~/");
    reveal_strlit("~");
    let q = seq!['~', '/'] + rest;
    assert(q.take(2) =~= "~/"@);
    assert(q.skip(2) =~= rest);
    assert(seq!['~'] =~= "~"@);
    if begins(p, "~/"@) {
        assert(p.take(2)[0] == p[0] && p.take(2)[1] == p[1]);
    }
}

/// Presets and history are kept in a directory of their own, under the one that is set for settings, or
/// else under that at home.
pub proof fn law_settings_have_their_directory(dir: Seq<char>, home: Seq<char>)
    requires
        home.len() > 0 && home.last() != '/',
        dir.len() > 0 && dir.last() != '/',
    ensures
        settings_dir(None, home) == home + "/.config/lyra"@,
        settings_dir(Some(dir), home) == dir + "/lyra"@,
{
    reveal_strlit("/");
    reveal_strlit("lyra");
    reveal_strlit("/lyra");
    reveal_strlit(".config");
    reveal_strlit("/.config/lyra");
    assert(settings_dir(None, home) =~= home + "/.config/lyra"@);
    assert(settings_dir(Some(dir), home) =~= dir + "/lyra"@);
}

/// What stands behind a separator, without one in it, is the last piece.
pub proof fn lemma_last_piece(a: Seq<char>, b: Seq<char>, sep: char)
    requires
        lacks(b, sep),
    ensures
        split(a + seq![sep] + b, sep) == split(a, sep).push(b),
    decreases b.len(),
{
    let s = a + seq![sep] + b;
    if b.len() == 0 {
        assert(s.drop_last() =~= a);
        assert(s.last() == sep);
        assert(b =~= Seq::<char>::empty());
    } else {
        assert(lacks(b.drop_last(), sep)) by {
            assert forall|i: int| 0 <= i < b.drop_last().len() implies #[trigger] b.drop_last()[i]
                != sep by {
                assert(b.drop_last()[i] == b[i]);
            }
        }
        lemma_last_piece(a, b.drop_last(), sep);
        assert(s.drop_last() =~= a + seq![sep] + b.drop_last());
        assert(s.last() == b.last());
        assert(b[b.len() - 1] != sep);
        assert(b.drop_last().push(b.last()) =~= b);
        assert(split(s, sep) =~= split(a, sep).push(b));
    }
}

/// A name behind a directory is one more step; a dot or nothing is none.
pub proof fn law_name_is_one_more_step(dir: Seq<char>, name: Seq<char>)
    requires
        dir.len() > 0,
        lacks(name, '/'),
    ensures
        rooted(dir + seq!['/'] + name) == rooted(dir),
        name.len() > 0 && name != "."@ ==> steps(dir + seq!['/'] + name) == steps(dir).push(name),
        name.len() == 0 || name == "."@ ==> steps(dir + seq!['/'] + name) == steps(dir),
{
    let p = dir + seq!['/'] + name;
    assert(p[0] == dir[0]);
    lemma_last_piece(dir, name, '/');
    lemma_split_len(dir, '/');
    let pieces = split(dir, '/').push(name);
    assert(pieces.drop_last() =~= split(dir, '/'));
}

/// A file in a directory is under it, whatever its name, but for a step up: that leads out of the
/// directory, and so does a step up and into another one.
pub proof fn law_step_up_leads_out(dir: Seq<char>, name: Seq<char>)
    requires
        dir.len() > 0,
        name.len() > 0 && lacks(name, '/') && name != "."@ && name != ".."@,
        resolved(steps(dir), rooted(dir)).len() > 0,
        resolved(steps(dir), rooted(dir)).last() != ".."@,
    ensures
        under(dir + seq!['/'] + name, dir),
        !under(dir + seq!['/'] + ".."@, dir),
        resolved(steps(dir), rooted(dir)).last() != name ==> !under(
            dir + seq!['/'] + ".."@ + seq!['/'] + name,
            dir,
        ),
{
    reveal_strlit(".");
    reveal_strlit("..");
    assert("."@.len() == 1 && ".."@.len() == 2);
    let up = dir + seq!['/'] + ".."@;
    let over = up + seq!['/'] + name;
    law_name_is_one_more_step(dir, name);
    law_name_is_one_more_step(dir, ".."@);
    law_name_is_one_more_step(up, name);
    let root = rooted(dir);
    let d = steps(dir);
    let r = resolved(d, root);
    assert(d.push(name).drop_last() =~= d);
    assert(d.push(".."@).drop_last() =~= d);
    assert(d.push(".."@).push(name).drop_last() =~= d.push(".."@));
    assert(d.push(name).take(d.len() as int) =~= d);
    assert(r.push(name).take(r.len() as int) =~= r);
    assert(resolved(steps(up), root) == r.drop_last());
    if r.last() != name {
        let end = r.drop_last().push(name);
        assert(resolved(steps(over), root) == end);
        assert(end.take(r.len() as int)[r.len() - 1] == name);
    }
}

/// A path that starts elsewhere than a directory is not under it: at the root where the directory does
/// not, or with another first step.
pub proof fn law_elsewhere_is_not_under(p: Seq<char>, dir: Seq<char>, i: int)
    requires
        dir.len() > 0,
        rooted(p) != rooted(dir) || steps(p).len() < steps(dir).len() || (0 <= i < steps(dir).len()
            && steps(p)[i] != steps(dir)[i]),
    ensures
        !under(p, dir),
{
    if steps(p).len() >= steps(dir).len() && 0 <= i < steps(dir).len() {
        assert(steps(p).take(steps(dir).len() as int)[i] == steps(p)[i]);
    }
}

// --- the time --------------------------------------------------------------------------------------

/// The output path of a time is a sound file in the music directory at home; different times have
/// different ones.
pub proof fn law_outputs_are_named_apart(s: u64, t: u64)
    ensures
        begins(out_named(s), "~/Music/lyra-"@) && ends(out_named(s), ".wav"@),
        out_named(s) == out_named(t) ==> s == t,
{
    reveal_strlit("~/Music/lyra-");
    reveal_strlit(".wav");
    let a = out_named(s);
    let b = out_named(t);
    assert(a.take(13) =~= "~/Music/lyra-"@);
    assert(a.skip(a.len() - 4) =~= ".wav"@);
    assert(a.subrange(13, a.len() - 4) =~= decimal(s as nat));
    assert(b.subrange(13, b.len() - 4) =~= decimal(t as nat));
    law_decimal_reads_back(s as nat);
    law_decimal_reads_back(t as nat);
}

/// A reading of the clock counts whole seconds, and nanoseconds as far as 64 bits hold them; none is
/// zero.
pub proof fn law_clock_counts_on(s: u64, n: u32)
    ensures
        seconds(Some((s, n))) == s && seconds(None) == 0,
        nanoseconds(None) == 0,
        s * 1_000_000_000 + n <= u64::MAX ==> nanoseconds(Some((s, n))) == s * 1_000_000_000 + n,
        0 <= nanoseconds(Some((s, n))) <= u64::MAX,
{
}

} // verus!
