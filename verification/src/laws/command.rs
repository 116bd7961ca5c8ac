//! What the command of a run says: every setting under its own key.

use vstd::prelude::*;

use crate::argv::{arguments, flagged, request, session};
use crate::config::ConfigV;
use crate::detect::PathsV;
use crate::edit::shown;
use crate::field::{law_ids_are_distinct, Field};
use crate::path::expanded;
use crate::text::{begins, trimmed};

verus! {

/// Whether an argument stands directly behind a flag.
pub open spec fn behind(args: Seq<Seq<char>>, i: int, flag: Seq<char>) -> bool {
    0 < i < args.len() && args[i - 1] == flag
}

/// Whether a text is an argument that stands directly behind a flag.
pub open spec fn given(args: Seq<Seq<char>>, flag: Seq<char>, text: Seq<char>) -> bool {
    exists|i: int| #[trigger] behind(args, i, flag) && args[i] == text
}

/// Whether a field is a number that is handed over with the request.
pub open spec fn requested(f: Field) -> bool {
    ||| f is Duration
    ||| f is Steps
    ||| f is Guidance
    ||| f is ArGuidance
    ||| f is TopK
    ||| f is Seed
    ||| f is FlowInterval
    ||| f is FlowWarmup
    ||| f is FlowHop
    ||| f is EnsembleTakes
    ||| f is EnsemblePrefix
}

/// Whether a field is a setting of the session.
pub open spec fn of_session(f: Field) -> bool {
    f is MemSaver || f is PipelineOverlap || f is GraphCtx || f is WeightCtx
}

/// Whether a field is a component.
pub open spec fn of_component(f: Field) -> bool {
    f is Lm || f is Flow || f is Depth
}

proof fn lemma_flagged_len(
    flag: Seq<char>,
    prefix: Seq<char>,
    pairs: Seq<(Seq<char>, Seq<char>)>,
)
    ensures
        flagged(flag, prefix, pairs).len() == 2 * pairs.len(),
    decreases pairs.len(),
{
    if pairs.len() > 0 {
        lemma_flagged_len(flag, prefix, pairs.drop_last());
    }
}

proof fn lemma_flagged(
    flag: Seq<char>,
    prefix: Seq<char>,
    pairs: Seq<(Seq<char>, Seq<char>)>,
    k: int,
)
    requires
        0 <= k < pairs.len(),
    ensures
        flagged(flag, prefix, pairs).len() == 2 * pairs.len(),
        flagged(flag, prefix, pairs)[2 * k] == flag,
        flagged(flag, prefix, pairs)[2 * k + 1] == prefix + pairs[k].0 + "="@ + pairs[k].1,
    decreases pairs.len(),
{
    lemma_flagged_len(flag, prefix, pairs);
    let init = pairs.drop_last();
    lemma_flagged_len(flag, prefix, init);
    if k < init.len() {
        lemma_flagged(flag, prefix, init, k);
        assert(init[k] == pairs[k]);
        assert(flagged(flag, prefix, pairs)[2 * k] == flagged(flag, prefix, init)[2 * k]);
        assert(flagged(flag, prefix, pairs)[2 * k + 1] == flagged(flag, prefix, init)[2 * k + 1]);
    }
}

/// An identifier begins with a letter and has no equals sign in it.
proof fn lemma_id_is_plain(f: Field)
    ensures
        f.name().len() > 0,
        f.name()[0] != '-',
        forall|i: int| 0 <= i < f.name().len() ==> #[trigger] f.name()[i] != '=',
{
    reveal_strlit("genre");
    reveal_strlit("mood");
    reveal_strlit("vocals");
    reveal_strlit("caption");
    reveal_strlit("lyrics");
    reveal_strlit("duration_sec");
    reveal_strlit("num_inference_steps");
    reveal_strlit("out");
    reveal_strlit("guidance_scale");
    reveal_strlit("ar_guidance_scale");
    reveal_strlit("top_k");
    reveal_strlit("seed");
    reveal_strlit("flow_uncond_interval");
    reveal_strlit("flow_uncond_warmup");
    reveal_strlit("flow_chunk_hop_frames");
    reveal_strlit("ensemble_takes");
    reveal_strlit("ensemble_prefix_frames");
    reveal_strlit("mem_saver");
    reveal_strlit("pipeline_overlap");
    reveal_strlit("graph_context_mb");
    reveal_strlit("weight_context_mb");
    reveal_strlit("backend");
    reveal_strlit("language_model_gguf");
    reveal_strlit("flow_transformer_gguf");
    reveal_strlit("rvq_depth_decoder_gguf");
}

proof fn lemma_same_key(prefix: Seq<char>, a: Seq<char>, v: Seq<char>, b: Seq<char>)
    requires
        begins(prefix + a + "="@ + v, prefix + b + "="@),
        forall|i: int| 0 <= i < a.len() ==> #[trigger] a[i] != '=',
        forall|i: int| 0 <= i < b.len() ==> #[trigger] b[i] != '=',
    ensures
        a == b,
{
    reveal_strlit("=");
    let l = prefix + a + "="@ + v;
    let r = prefix + b + "="@;
    let n = prefix.len() as int;
    assert(forall|i: int| 0 <= i < r.len() ==> l.take(r.len() as int)[i] == r[i]);
    assert(forall|i: int| 0 <= i < r.len() ==> l[i] == #[trigger] r[i]);
    if a.len() < b.len() {
        assert(l[n + a.len()] == '=');
        assert(r[n + a.len()] == b[a.len() as int]);
    } else if b.len() < a.len() {
        assert(r[n + b.len()] == '=');
        assert(l[n + b.len()] == a[b.len() as int]);
    }
    assert forall|i: int| 0 <= i < a.len() implies a[i] == b[i] by {
        assert(l[n + i] == a[i]);
        assert(r[n + i] == b[i]);
    }
    assert(a =~= b);
}

/// The fields whose values are handed over with the request, in their order.
spec fn request_fields() -> Seq<Field> {
    seq![
        Field::Lyrics,
        Field::Duration,
        Field::Steps,
        Field::Guidance,
        Field::ArGuidance,
        Field::TopK,
        Field::Seed,
        Field::FlowInterval,
        Field::FlowWarmup,
        Field::FlowHop,
        Field::EnsembleTakes,
        Field::EnsemblePrefix,
    ]
}

/// Every number of the request reaches the process under the identifier of its own field, with the
/// value that is shown in that field, and nothing else goes under that identifier.
pub proof fn law_numbers_go_under_their_own_keys(paths: PathsV, c: ConfigV, f: Field)
    requires
        requested(f),
    ensures
        given(arguments(paths, c), "--request-option"@, f.name() + "="@ + shown(c, f)),
        forall|i: int| #[trigger]
            behind(arguments(paths, c), i, "--request-option"@) && begins(
                arguments(paths, c)[i],
                f.name() + "="@,
            ) ==> arguments(paths, c)[i] == f.name() + "="@ + shown(c, f),
{
    let args = arguments(paths, c);
    let s = flagged("--session-option"@, "minimax_music3."@, session(paths, c));
    let r = flagged("--request-option"@, ""@, request(c));
    let pairs = request(c);
    let fields = request_fields();
    let from = 11 + s.len() as int;
    lemma_flagged_len("--session-option"@, "minimax_music3."@, session(paths, c));
    lemma_flagged_len("--request-option"@, ""@, pairs);
    lemma_id_is_plain(f);
    lemma_flags();
    reveal_strlit("");
    assert(forall|x: Seq<char>| #[trigger] (""@ + x) =~= x);
    assert forall|k: int| 0 <= k < 12 implies (#[trigger] pairs[k]).0 == fields[k].name() by {}
    assert forall|k: int| 0 <= k < 12 && fields[k] == f implies (#[trigger] pairs[k]).1 == shown(c, f) by {}
    let k = choose|k: int| 0 <= k < 12 && #[trigger] fields[k] == f;
    assert(exists|k: int| 0 <= k < 12 && #[trigger] fields[k] == f) by {
        assert(fields[1] == Field::Duration && fields[2] == Field::Steps);
        assert(fields[3] == Field::Guidance && fields[4] == Field::ArGuidance);
        assert(fields[5] == Field::TopK && fields[6] == Field::Seed);
        assert(fields[7] == Field::FlowInterval && fields[8] == Field::FlowWarmup);
        assert(fields[9] == Field::FlowHop && fields[10] == Field::EnsembleTakes);
        assert(fields[11] == Field::EnsemblePrefix);
    }
    let at = from + 2 * k + 1;
    assert(pairs[k].0 == f.name() && pairs[k].1 == shown(c, f));
    lemma_flagged("--request-option"@, ""@, pairs, k);
    assert(args[at] == r[2 * k + 1]);
    assert(args[at - 1] == r[2 * k]);
    assert(behind(args, at, "--request-option"@));
    assert(args[at] =~= f.name() + "="@ + shown(c, f));
    assert forall|i: int| #[trigger]
        behind(args, i, "--request-option"@) && begins(args[i], f.name() + "="@) implies args[i]
        == f.name() + "="@ + shown(c, f) by {
        lemma_begins_first(args[i], f.name() + "="@);
        assert(args[i][0] == f.name()[0]);
        if i < 9 {
        } else if i < 9 + s.len() {
            assert(args[i] == s[i - 9]);
            lemma_even_flags(s, session(paths, c), i - 9);
            if (i - 9) % 2 == 1 {
                assert(args[i - 1] == s[i - 10]);
            }
        } else if i < from {
        } else if i < from + r.len() {
            let m = (i - from) / 2;
            assert(args[i] == r[i - from]);
            assert(pairs[m].0 == fields[m].name());
            lemma_flagged("--request-option"@, ""@, pairs, m);
            if (i - from) % 2 == 1 {
                lemma_id_is_plain(fields[m]);
                assert(""@ + pairs[m].0 =~= pairs[m].0);
                assert(""@ + f.name() =~= f.name());
                lemma_same_key(""@, pairs[m].0, pairs[m].1, f.name());
                law_ids_are_distinct(fields[m], f);
            }
        } else {
        }
    }
}

proof fn lemma_even_flags(s: Seq<Seq<char>>, pairs: Seq<(Seq<char>, Seq<char>)>, i: int)
    requires
        s == flagged("--session-option"@, "minimax_music3."@, pairs),
        0 <= i < s.len(),
    ensures
        i % 2 == 0 ==> s[i] == "--session-option"@,
        i % 2 == 1 ==> i > 0 && s[i - 1] == "--session-option"@,
{
    lemma_flagged_len("--session-option"@, "minimax_music3."@, pairs);
    lemma_flagged("--session-option"@, "minimax_music3."@, pairs, i / 2);
}

proof fn lemma_begins_first(s: Seq<char>, p: Seq<char>)
    requires
        begins(s, p),
        p.len() > 0,
    ensures
        s.len() > 0,
        s[0] == p[0],
{
    assert(s.take(p.len() as int)[0] == p[0]);
}

/// The flags begin with a dash, and the two for options differ from all others.
proof fn lemma_flags()
    ensures
        "--task"@[0] == '-' && "--task"@.len() > 0,
        "--family"@[0] == '-' && "--family"@.len() > 0,
        "--model"@[0] == '-' && "--model"@.len() > 0,
        "--backend"@[0] == '-' && "--backend"@.len() > 0,
        "--session-option"@[0] == '-' && "--session-option"@.len() > 0,
        "--text"@[0] == '-' && "--text"@.len() > 0,
        "--request-option"@[0] == '-' && "--request-option"@.len() > 0,
        "--out"@[0] == '-' && "--out"@.len() > 0,
        "--metrics"@[0] == '-' && "--metrics"@.len() > 0,
        "--request-option"@ != "--task"@,
        "--request-option"@ != "--family"@,
        "--request-option"@ != "--model"@,
        "--request-option"@ != "--backend"@,
        "--request-option"@ != "--session-option"@,
        "--request-option"@ != "--text"@,
        "--request-option"@ != "--out"@,
        "--session-option"@ != "--task"@,
        "--session-option"@ != "--family"@,
        "--session-option"@ != "--model"@,
        "--session-option"@ != "--backend"@,
        "--session-option"@ != "--text"@,
        "--session-option"@ != "--out"@,
{
    reveal_strlit("--task");
    reveal_strlit("--family");
    reveal_strlit("--model");
    reveal_strlit("--backend");
    reveal_strlit("--session-option");
    reveal_strlit("--text");
    reveal_strlit("--request-option");
    reveal_strlit("--out");
    reveal_strlit("--metrics");
    assert("--request-option"@[2] != "--session-option"@[2]);
    assert("--request-option"@.len() == 16);
    assert("--session-option"@.len() == 16);
}

/// What a run takes for a component: the file that is chosen, or the one that was found where none
/// is chosen.
pub open spec fn component(paths: PathsV, c: ConfigV, f: Field) -> Option<Seq<char>> {
    let (own, there) = match f {
        Field::Lm => (c.lm_gguf, paths.language_model),
        Field::Flow => (c.flow_gguf, paths.flow_transformer),
        _ => (c.depth_gguf, paths.depth_decoder),
    };
    if own.len() == 0 {
        there
    } else {
        Some(own)
    }
}

proof fn lemma_session_value(paths: PathsV, c: ConfigV, i: int, f: Field)
    requires
        of_session(f) || of_component(f),
        behind(arguments(paths, c), i, "--session-option"@),
        begins(arguments(paths, c)[i], "minimax_music3."@ + f.name() + "="@),
    ensures
        ({
            let pairs = session(paths, c);
            let m = (i - 9) / 2;
            &&& 9 <= i < 9 + 2 * pairs.len()
            &&& (i - 9) % 2 == 1
            &&& pairs[m].0 == f.name()
            &&& arguments(paths, c)[i] == "minimax_music3."@ + pairs[m].0 + "="@ + pairs[m].1
        }),
{
    let args = arguments(paths, c);
    let pairs = session(paths, c);
    let s = flagged("--session-option"@, "minimax_music3."@, pairs);
    let r = flagged("--request-option"@, ""@, request(c));
    let from = 11 + s.len() as int;
    lemma_flagged_len("--session-option"@, "minimax_music3."@, pairs);
    lemma_flagged_len("--request-option"@, ""@, request(c));
    lemma_id_is_plain(f);
    lemma_flags();
    reveal_strlit("minimax_music3.");
    lemma_begins_first(args[i], "minimax_music3."@ + f.name() + "="@);
    assert(args[i][0] == 'm');
    if i < 9 {
    } else if i < 9 + s.len() {
        let m = (i - 9) / 2;
        lemma_flagged("--session-option"@, "minimax_music3."@, pairs, m);
        assert(args[i] == s[i - 9]);
        assert((i - 9) % 2 == 1);
        lemma_session_keys(paths, c, m);
        lemma_same_key("minimax_music3."@, pairs[m].0, pairs[m].1, f.name());
    } else if i < from {
    } else if i < from + r.len() {
        let m = (i - from) / 2;
        lemma_flagged("--request-option"@, ""@, request(c), m);
        assert(args[i] == r[i - from]);
        if (i - from) % 2 == 1 {
            assert(args[i - 1] == r[i - from - 1]);
        }
    } else {
    }
}

/// The keys of the session are identifiers of fields.
proof fn lemma_session_keys(paths: PathsV, c: ConfigV, m: int)
    requires
        0 <= m < session(paths, c).len(),
    ensures
        forall|i: int|
            0 <= i < session(paths, c)[m].0.len() ==> #[trigger] session(paths, c)[m].0[i] != '=',
        exists|g: Field| #[trigger] g.name() == session(paths, c)[m].0 && session_pair(paths, c, g)
            == Some(session(paths, c)[m].1),
{
    let key = session(paths, c)[m].0;
    let g = if component(paths, c, Field::Lm) is Some && m == 0 {
        Field::Lm
    } else if component(paths, c, Field::Depth) is Some && m == session_place(
        paths,
        c,
        Field::Depth,
    ) {
        Field::Depth
    } else if component(paths, c, Field::Flow) is Some && m == session_place(paths, c, Field::Flow) {
        Field::Flow
    } else if m == session_place(paths, c, Field::MemSaver) {
        Field::MemSaver
    } else if m == session_place(paths, c, Field::PipelineOverlap) {
        Field::PipelineOverlap
    } else if m == session_place(paths, c, Field::GraphCtx) {
        Field::GraphCtx
    } else {
        Field::WeightCtx
    };
    assert(g.name() == key);
    assert(session_pair(paths, c, g) == Some(session(paths, c)[m].1));
    lemma_id_is_plain(g);
}

proof fn lemma_some_ids_differ()
    ensures
        forall|f: Field, g: Field| #[trigger] f.name() == #[trigger] g.name() ==> f == g,
{
    assert forall|f: Field, g: Field| #[trigger] f.name() == #[trigger] g.name() implies f == g by {
        law_ids_are_distinct(f, g);
    }
}

/// What the session says of a field.
spec fn session_pair(paths: PathsV, c: ConfigV, f: Field) -> Option<Seq<char>> {
    if of_component(f) {
        component(paths, c, f)
    } else {
        Some(shown(c, f))
    }
}

/// The place of a field in the session.
spec fn session_place(paths: PathsV, c: ConfigV, f: Field) -> int {
    let lm = if component(paths, c, Field::Lm) is Some {
        1int
    } else {
        0
    };
    let depth = if component(paths, c, Field::Depth) is Some {
        1int
    } else {
        0
    };
    let flow = if component(paths, c, Field::Flow) is Some {
        1int
    } else {
        0
    };
    match f {
        Field::Lm => 0,
        Field::Depth => lm,
        Field::Flow => lm + depth,
        Field::MemSaver => lm + depth + flow,
        Field::PipelineOverlap => lm + depth + flow + 1,
        Field::GraphCtx => lm + depth + flow + 2,
        _ => lm + depth + flow + 3,
    }
}

proof fn lemma_session_given(paths: PathsV, c: ConfigV, f: Field)
    requires
        of_session(f) || of_component(f),
        session_pair(paths, c, f) is Some,
    ensures
        given(
            arguments(paths, c),
            "--session-option"@,
            "minimax_music3."@ + f.name() + "="@ + session_pair(paths, c, f)->0,
        ),
{
    let args = arguments(paths, c);
    let pairs = session(paths, c);
    let s = flagged("--session-option"@, "minimax_music3."@, pairs);
    let m = session_place(paths, c, f);
    assert(0 <= m < pairs.len());
    assert(pairs[m].0 == f.name());
    assert(pairs[m].1 == session_pair(paths, c, f)->0);
    lemma_flagged("--session-option"@, "minimax_music3."@, pairs, m);
    let at = 9 + 2 * m + 1;
    assert(args[at] == s[2 * m + 1]);
    assert(args[at - 1] == s[2 * m]);
    assert(behind(args, at, "--session-option"@));
}

/// Every setting of the session reaches the process under the identifier of its own field, behind the
/// name of the model family, with the value that is shown in that field, and nothing else goes under
/// that identifier.
pub proof fn law_session_settings_go_under_their_own_keys(paths: PathsV, c: ConfigV, f: Field)
    requires
        of_session(f),
    ensures
        given(
            arguments(paths, c),
            "--session-option"@,
            "minimax_music3."@ + f.name() + "="@ + shown(c, f),
        ),
        forall|i: int| #[trigger]
            behind(arguments(paths, c), i, "--session-option"@) && begins(
                arguments(paths, c)[i],
                "minimax_music3."@ + f.name() + "="@,
            ) ==> arguments(paths, c)[i] == "minimax_music3."@ + f.name() + "="@ + shown(c, f),
{
    lemma_session_given(paths, c, f);
    let args = arguments(paths, c);
    assert forall|i: int| #[trigger]
        behind(args, i, "--session-option"@) && begins(
            args[i],
            "minimax_music3."@ + f.name() + "="@,
        ) implies args[i] == "minimax_music3."@ + f.name() + "="@ + shown(c, f) by {
        lemma_session_value(paths, c, i, f);
        lemma_session_keys(paths, c, (i - 9) / 2);
        lemma_some_ids_differ();
    }
}

/// A component reaches the process under the identifier of its own field: the file that is chosen, or
/// else the one that was found. Where there is neither, nothing is said of it.
pub proof fn law_components_go_under_their_own_keys(paths: PathsV, c: ConfigV, f: Field)
    requires
        of_component(f),
    ensures
        component(paths, c, f) matches Some(file) ==> given(
            arguments(paths, c),
            "--session-option"@,
            "minimax_music3."@ + f.name() + "="@ + file,
        ),
        forall|i: int| #[trigger]
            behind(arguments(paths, c), i, "--session-option"@) && begins(
                arguments(paths, c)[i],
                "minimax_music3."@ + f.name() + "="@,
            ) ==> component(paths, c, f) is Some && arguments(paths, c)[i] == "minimax_music3."@
                + f.name() + "="@ + component(paths, c, f)->0,
{
    if component(paths, c, f) is Some {
        lemma_session_given(paths, c, f);
    }
    let args = arguments(paths, c);
    assert forall|i: int| #[trigger]
        behind(args, i, "--session-option"@) && begins(
            args[i],
            "minimax_music3."@ + f.name() + "="@,
        ) implies component(paths, c, f) is Some && args[i] == "minimax_music3."@ + f.name() + "="@
        + component(paths, c, f)->0 by {
        lemma_session_value(paths, c, i, f);
        lemma_session_keys(paths, c, (i - 9) / 2);
        lemma_some_ids_differ();
    }
}

/// The process is the binary that was found, and it is told what to do with which model on which
/// backend, the caption and the lyrics that the settings come to, and where the song goes.
pub proof fn law_command_says_what_to_do(paths: PathsV, c: ConfigV)
    ensures
        ({
            let args = arguments(paths, c);
            &&& args[0] == paths.bin
            &&& args.last() == "--metrics"@
            &&& given(args, "--task"@, "gen"@)
            &&& given(args, "--family"@, "minimax_music3"@)
            &&& given(args, "--model"@, paths.model_dir)
            &&& c.backend.len() > 0 ==> given(args, "--backend"@, c.backend)
            &&& c.backend.len() == 0 ==> given(args, "--backend"@, paths.backend)
            &&& given(args, "--text"@, c.title())
            &&& given(args, "--request-option"@, "lyrics="@ + c.sung())
            &&& given(args, "--out"@, expanded(trimmed(c.out), paths.home))
        }),
{
    let args = arguments(paths, c);
    let s = flagged("--session-option"@, "minimax_music3."@, session(paths, c));
    let r = flagged("--request-option"@, ""@, request(c));
    lemma_flagged("--request-option"@, ""@, request(c), 0);
    let at = 11 + s.len() as int + 1;
    assert(behind(args, 2, "--task"@));
    assert(behind(args, 4, "--family"@));
    assert(behind(args, 6, "--model"@));
    assert(behind(args, 8, "--backend"@));
    assert(behind(args, 9 + s.len() as int + 1, "--text"@));
    assert(args[at] == r[1] && args[at - 1] == r[0]);
    assert(behind(args, at, "--request-option"@));
    reveal_strlit("");
    reveal_strlit("lyrics");
    reveal_strlit("=");
    reveal_strlit("lyrics=");
    assert(args[at] =~= "lyrics="@ + c.sung());
    assert(behind(args, at - 1 + r.len() + 1, "--out"@));
}

/// Whether two settings are the same but for one number of the request.
pub open spec fn same_but(c: ConfigV, d: ConfigV, f: Field) -> bool {
    match f {
        Field::Duration => d == (ConfigV { duration_sec: d.duration_sec, ..c }),
        Field::Steps => d == (ConfigV { num_inference_steps: d.num_inference_steps, ..c }),
        Field::Guidance => d == (ConfigV { guidance_scale: d.guidance_scale, ..c }),
        Field::ArGuidance => d == (ConfigV { ar_guidance_scale: d.ar_guidance_scale, ..c }),
        Field::TopK => d == (ConfigV { top_k: d.top_k, ..c }),
        Field::Seed => d == (ConfigV { seed: d.seed, ..c }),
        Field::FlowInterval => d == (ConfigV { flow_uncond_interval: d.flow_uncond_interval, ..c }),
        Field::FlowWarmup => d == (ConfigV { flow_uncond_warmup: d.flow_uncond_warmup, ..c }),
        Field::FlowHop => d == (ConfigV { flow_chunk_hop_frames: d.flow_chunk_hop_frames, ..c }),
        Field::EnsembleTakes => d == (ConfigV { ensemble_takes: d.ensemble_takes, ..c }),
        Field::EnsemblePrefix => d == (ConfigV {
            ensemble_prefix_frames: d.ensemble_prefix_frames,
            ..c
        }),
        _ => false,
    }
}

/// Two settings that differ in one number of the request alone give commands that differ in the one
/// argument for that number alone.
pub proof fn law_one_number_changes_one_argument(paths: PathsV, c: ConfigV, d: ConfigV, f: Field)
    requires
        same_but(c, d, f),
    ensures
        arguments(paths, c).len() == arguments(paths, d).len(),
        forall|i: int|
            0 <= i < arguments(paths, c).len() && #[trigger] arguments(paths, c)[i] != arguments(
                paths,
                d,
            )[i] ==> begins(arguments(paths, c)[i], f.name() + "="@) && begins(
                arguments(paths, d)[i],
                f.name() + "="@,
            ),
{
    let a = arguments(paths, c);
    let b = arguments(paths, d);
    let s = flagged("--session-option"@, "minimax_music3."@, session(paths, c));
    let from = 11 + s.len() as int;
    let ra = flagged("--request-option"@, ""@, request(c));
    let rb = flagged("--request-option"@, ""@, request(d));
    assert(session(paths, c) =~= session(paths, d));
    assert(c.title() == d.title() && c.sung() == d.sung() && c.out == d.out);
    lemma_flagged_len("--request-option"@, ""@, request(c));
    lemma_flagged_len("--request-option"@, ""@, request(d));
    reveal_strlit("");
    let fields = request_fields();
    assert forall|i: int| 0 <= i < a.len() && #[trigger] a[i] != b[i] implies begins(
        a[i],
        f.name() + "="@,
    ) && begins(b[i], f.name() + "="@) by {
        if from <= i < from + ra.len() {
            let m = (i - from) / 2;
            lemma_flagged("--request-option"@, ""@, request(c), m);
            lemma_flagged("--request-option"@, ""@, request(d), m);
            assert(a[i] == ra[i - from] && b[i] == rb[i - from]);
            assert(request(c)[m].0 == fields[m].name() && request(d)[m].0 == fields[m].name());
            assert(fields[m] != f ==> request(c)[m].1 == request(d)[m].1);
            assert(fields[m] == f);
            let head = f.name() + "="@;
            assert(a[i].take(head.len() as int) =~= head);
            assert(b[i].take(head.len() as int) =~= head);
        }
    }
}

} // verus!
