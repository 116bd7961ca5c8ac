//! Every field shows and changes its own setting.

use vstd::prelude::*;

use crate::config::{defaults, ConfigV, DEFAULT_LYRICS, GENRES, MOODS, VOCALS};
use crate::detect::{texts, PathsV, BACKENDS};
use crate::double::{finite, lemma_bounds_are_whole, undefined, whole, worth, DoubleV};
use crate::edit::{
    adjusted, amount, choices, count, counted, cycled, in_lists, picked, selected, shown, slots,
    toggled, typed_in, with_amount, with_count, with_index, wrap64,
};
use crate::field::{Field, Kind, HELPS, LABELS};
use crate::laws::finding::law_components_are_its_files;
use crate::number::{decimal, is_digit, law_decimal_reads_back, signed_decimal, unsigned, signed};
use crate::text::{begins, ends, trimmed, white};

verus! {

// --- names -----------------------------------------------------------------------------------------

/// The identifiers by which requests and arguments name the fields, and the labels that are shown for
/// them.
pub proof fn law_fields_are_named()
    ensures
        Field::Genre.name() == "genre"@,
        LABELS@[Field::Genre.place()]@ == "Style"@,
        Field::Mood.name() == "mood"@,
        LABELS@[Field::Mood.place()]@ == "Mood"@,
        Field::Vocals.name() == "vocals"@,
        LABELS@[Field::Vocals.place()]@ == "Vocals"@,
        Field::Caption.name() == "caption"@,
        LABELS@[Field::Caption.place()]@ == "Caption override"@,
        Field::Lyrics.name() == "lyrics"@,
        LABELS@[Field::Lyrics.place()]@ == "Lyrics"@,
        Field::Duration.name() == "duration_sec"@,
        LABELS@[Field::Duration.place()]@ == "Length (s)"@,
        Field::Steps.name() == "num_inference_steps"@,
        LABELS@[Field::Steps.place()]@ == "Steps"@,
        Field::Out.name() == "out"@,
        LABELS@[Field::Out.place()]@ == "Output file"@,
        Field::Guidance.name() == "guidance_scale"@,
        LABELS@[Field::Guidance.place()]@ == "Flow guidance"@,
        Field::ArGuidance.name() == "ar_guidance_scale"@,
        LABELS@[Field::ArGuidance.place()]@ == "AR guidance"@,
        Field::TopK.name() == "top_k"@,
        LABELS@[Field::TopK.place()]@ == "Top-k"@,
        Field::Seed.name() == "seed"@,
        LABELS@[Field::Seed.place()]@ == "Seed"@,
        Field::FlowInterval.name() == "flow_uncond_interval"@,
        LABELS@[Field::FlowInterval.place()]@ == "Flow uncond interval"@,
        Field::FlowWarmup.name() == "flow_uncond_warmup"@,
        LABELS@[Field::FlowWarmup.place()]@ == "Flow uncond warmup"@,
        Field::FlowHop.name() == "flow_chunk_hop_frames"@,
        LABELS@[Field::FlowHop.place()]@ == "Flow chunk hop"@,
        Field::EnsembleTakes.name() == "ensemble_takes"@,
        LABELS@[Field::EnsembleTakes.place()]@ == "Ensemble takes"@,
        Field::EnsemblePrefix.name() == "ensemble_prefix_frames"@,
        LABELS@[Field::EnsemblePrefix.place()]@ == "Ensemble prefix frames"@,
        Field::MemSaver.name() == "mem_saver"@,
        LABELS@[Field::MemSaver.place()]@ == "Mem saver"@,
        Field::PipelineOverlap.name() == "pipeline_overlap"@,
        LABELS@[Field::PipelineOverlap.place()]@ == "Pipeline overlap"@,
        Field::GraphCtx.name() == "graph_context_mb"@,
        LABELS@[Field::GraphCtx.place()]@ == "Graph ctx (MiB)"@,
        Field::WeightCtx.name() == "weight_context_mb"@,
        LABELS@[Field::WeightCtx.place()]@ == "Weight ctx (MiB)"@,
        Field::Backend.name() == "backend"@,
        LABELS@[Field::Backend.place()]@ == "Backend"@,
        Field::Lm.name() == "language_model_gguf"@,
        LABELS@[Field::Lm.place()]@ == "Language model"@,
        Field::Flow.name() == "flow_transformer_gguf"@,
        LABELS@[Field::Flow.place()]@ == "Flow transformer"@,
        Field::Depth.name() == "rvq_depth_decoder_gguf"@,
        LABELS@[Field::Depth.place()]@ == "Depth decoder"@,
{
}

/// What is said about the fields.
pub proof fn law_fields_are_explained()
    ensures
        HELPS@[Field::Genre.place()]@ == "caption style; last item lets you type your own"@,
        HELPS@[Field::Mood.place()]@ == "mood word added to the caption"@,
        HELPS@[Field::Vocals.place()]@ == "vocal description; last item is instrumental"@,
        HELPS@[Field::Caption.place()]@ == "if set, overrides the composed caption entirely"@,
        HELPS@[Field::Lyrics.place()]@ == "song words; [verse]/[chorus]/[bridge]/[outro] tags allowed"@,
        HELPS@[Field::Duration.place()]@ == "AR frame budget in seconds — a cap, not a hard length"@,
        HELPS@[Field::Steps.place()]@ == "flow-matching Euler steps per chunk (lower = faster)"@,
        HELPS@[Field::Out.place()]@ == "where the .wav is written (~ = home)"@,
        HELPS@[Field::Guidance.place()]@ == "flow CFG scale; 0 disables CFG"@,
        HELPS@[Field::ArGuidance.place()]@ == "semantic/depth AR CFG scale; 0 disables"@,
        HELPS@[Field::TopK.place()]@ == "top-k sampling for semantic and residual codes"@,
        HELPS@[Field::Seed.place()]@ == "reroll the song by changing this"@,
        HELPS@[Field::FlowInterval.place()]@ == "evaluate flow uncond branch every N steps (2-3 = faster)"@,
        HELPS@[Field::FlowWarmup.place()]@ == "steps per chunk that always evaluate both CFG branches"@,
        HELPS@[Field::FlowHop.place()]@ == "flow chunk hop in AR frames (0 = model default; 150 = faster)"@,
        HELPS@[Field::EnsembleTakes.place()]@ == "generate K takes sharing one AR pass"@,
        HELPS@[Field::EnsemblePrefix.place()]@ == "shared AR prefix frames across takes (intro lock)"@,
        HELPS@[Field::MemSaver.place()]@ == "load big stages only when needed (lower peak VRAM)"@,
        HELPS@[Field::PipelineOverlap.place()]@ == "overlap AR with denoise/vocode (needs mem_saver off)"@,
        HELPS@[Field::GraphCtx.place()]@ == "runtime graph arena size"@,
        HELPS@[Field::WeightCtx.place()]@ == "weight context size"@,
        HELPS@[Field::Backend.place()]@ == "cuda / metal / vulkan / hip / cpu"@,
        HELPS@[Field::Lm.place()]@ == "language-model component GGUF"@,
        HELPS@[Field::Flow.place()]@ == "flow-transformer component GGUF"@,
        HELPS@[Field::Depth.place()]@ == "RVQ depth-decoder component GGUF"@,
{
}

// --- what is shown ---------------------------------------------------------------------------------

/// What is shown in a field where the settings differ in that of another one alone.
pub open spec fn shown_if(c: ConfigV, own: bool, s: Seq<char>, g: Field) -> Seq<char> {
    if own {
        s
    } else {
        shown(c, g)
    }
}

/// A whole number is shown in its own field, in decimal, and in no other.
pub proof fn law_whole_numbers_are_shown_in_their_fields(c: ConfigV, n: u32, seed: u64, g: Field)
    ensures
        ({
            let d = decimal(n as nat);
            &&& shown(ConfigV { num_inference_steps: n, ..c }, g) == shown_if(c, g is Steps, d, g)
            &&& shown(ConfigV { top_k: n, ..c }, g) == shown_if(c, g is TopK, d, g)
            &&& shown(ConfigV { flow_uncond_interval: n, ..c }, g) == shown_if(c, g is FlowInterval, d, g)
            &&& shown(ConfigV { flow_uncond_warmup: n, ..c }, g) == shown_if(c, g is FlowWarmup, d, g)
            &&& shown(ConfigV { flow_chunk_hop_frames: n, ..c }, g) == shown_if(c, g is FlowHop, d, g)
            &&& shown(ConfigV { ensemble_takes: n, ..c }, g) == shown_if(c, g is EnsembleTakes, d, g)
            &&& shown(ConfigV { ensemble_prefix_frames: n, ..c }, g) == shown_if(c, g is EnsemblePrefix, d, g)
            &&& shown(ConfigV { graph_context_mb: n, ..c }, g) == shown_if(c, g is GraphCtx, d, g)
            &&& shown(ConfigV { weight_context_mb: n, ..c }, g) == shown_if(c, g is WeightCtx, d, g)
            &&& shown(ConfigV { seed, ..c }, g) == shown_if(c, g is Seed, decimal(seed as nat), g)
        }),
{
}

/// A number with a fraction is shown in its own field, by its text, and in no other.
pub proof fn law_fractions_are_shown_in_their_fields(c: ConfigV, v: DoubleV, g: Field)
    ensures
        shown(ConfigV { duration_sec: v, ..c }, g) == shown_if(c, g is Duration, v.text, g),
        shown(ConfigV { guidance_scale: v, ..c }, g) == shown_if(c, g is Guidance, v.text, g),
        shown(ConfigV { ar_guidance_scale: v, ..c }, g) == shown_if(c, g is ArGuidance, v.text, g),
{
}

/// A text is shown in its own field, as it is, and in no other; nothing at all is shown as automatic
/// where a field has an automatic choice.
pub proof fn law_texts_are_shown_in_their_fields(c: ConfigV, s: Seq<char>, g: Field)
    ensures
        ({
            let e = if s.len() == 0 {
                "(auto)"@
            } else {
                s
            };
            &&& shown(ConfigV { caption_override: s, ..c }, g) == shown_if(c, g is Caption, s, g)
            &&& shown(ConfigV { lyrics: s, ..c }, g) == shown_if(c, g is Lyrics, s, g)
            &&& shown(ConfigV { out: s, ..c }, g) == shown_if(c, g is Out, s, g)
            &&& shown(ConfigV { backend: s, ..c }, g) == shown_if(c, g is Backend, e, g)
            &&& shown(ConfigV { lm_gguf: s, ..c }, g) == shown_if(c, g is Lm, e, g)
            &&& shown(ConfigV { flow_gguf: s, ..c }, g) == shown_if(c, g is Flow, e, g)
            &&& shown(ConfigV { depth_gguf: s, ..c }, g) == shown_if(c, g is Depth, e, g)
        }),
{
}

/// A switch is shown in its own field, and in no other.
pub proof fn law_switches_are_shown_in_their_fields(c: ConfigV, g: Field)
    ensures
        shown(ConfigV { mem_saver: true, ..c }, g) == shown_if(c, g is MemSaver, "true"@, g),
        shown(ConfigV { mem_saver: false, ..c }, g) == shown_if(c, g is MemSaver, "false"@, g),
        shown(ConfigV { pipeline_overlap: true, ..c }, g) == shown_if(
            c,
            g is PipelineOverlap,
            "true"@,
            g,
        ),
        shown(ConfigV { pipeline_overlap: false, ..c }, g) == shown_if(
            c,
            g is PipelineOverlap,
            "false"@,
            g,
        ),
{
}

/// A choice from a list is shown in its own field, by its words, and in no other; a style of the user's
/// own by what it says, where it says anything.
pub proof fn law_choices_are_shown_in_their_fields(c: ConfigV, i: usize, s: Seq<char>, g: Field)
    ensures
        i < 8 ==> shown(ConfigV { mood: i, ..c }, g) == shown_if(c, g is Mood, MOODS@[i as int]@, g),
        i < 4 ==> shown(ConfigV { vocals: i, ..c }, g) == shown_if(
            c,
            g is Vocals,
            VOCALS@[i as int]@,
            g,
        ),
        i < 7 ==> shown(ConfigV { genre: i, genre_custom: s, ..c }, g) == shown_if(
            c,
            g is Genre,
            GENRES@[i as int]@,
            g,
        ),
        trimmed(s).len() > 0 ==> shown(ConfigV { genre: 7, genre_custom: s, ..c }, g) == shown_if(
            c,
            g is Genre,
            s,
            g,
        ),
{
}

/// What a new song shows in its fields.
pub proof fn law_defaults_are_shown(out: Seq<char>)
    ensures
        ({
            let c = defaults(out);
            &&& shown(c, Field::Genre) == GENRES@[0]@
            &&& shown(c, Field::Mood) == "uplifting"@
            &&& shown(c, Field::Vocals) == "a clear female vocal"@
            &&& shown(c, Field::Caption).len() == 0
            &&& shown(c, Field::Lyrics) == DEFAULT_LYRICS@
            &&& shown(c, Field::Duration) == "30"@
            &&& worth(c.duration_sec.bits) == whole(30)
            &&& shown(c, Field::Steps) == decimal(30)
            &&& shown(c, Field::Out) == out
            &&& shown(c, Field::Guidance) == "1.7"@
            &&& shown(c, Field::ArGuidance) == "1.5"@
            &&& 2 * worth(c.ar_guidance_scale.bits) == whole(3)
            &&& shown(c, Field::TopK) == decimal(50)
            &&& shown(c, Field::Seed) == decimal(0)
            &&& shown(c, Field::FlowInterval) == decimal(1)
            &&& shown(c, Field::FlowWarmup) == decimal(2)
            &&& shown(c, Field::FlowHop) == decimal(0)
            &&& shown(c, Field::EnsembleTakes) == decimal(1)
            &&& shown(c, Field::EnsemblePrefix) == decimal(0)
            &&& shown(c, Field::MemSaver) == "true"@
            &&& shown(c, Field::PipelineOverlap) == "false"@
            &&& shown(c, Field::GraphCtx) == decimal(32)
            &&& shown(c, Field::WeightCtx) == decimal(32)
            &&& shown(c, Field::Backend) == "(auto)"@
            &&& shown(c, Field::Lm) == "(auto)"@
            &&& shown(c, Field::Flow) == "(auto)"@
            &&& shown(c, Field::Depth) == "(auto)"@
        }),
{
    lemma_bounds_are_whole();
}

// --- one field at a time ---------------------------------------------------------------------------

proof fn lemma_chosen_for_one(c: ConfigV, paths: PathsV, f: Field, g: Field, i: int)
    requires
        f != g,
    ensures
        shown(with_index(c, paths, f, i), g) == shown(c, g),
{
}

proof fn lemma_numbered_for_one(c: ConfigV, f: Field, g: Field, n: u32, v: DoubleV)
    requires
        f != g,
    ensures
        counted(f) ==> shown(with_count(c, f, n), g) == shown(c, g),
        f.sort() == Kind::Float ==> shown(with_amount(c, f, v), g) == shown(c, g),
{
}

/// Typing into a field leaves what every other field shows as it was.
pub proof fn law_typing_leaves_other_fields(
    c: ConfigV,
    f: Field,
    g: Field,
    s: Seq<char>,
    v: Option<DoubleV>,
)
    requires
        f != g,
    ensures
        shown(typed_in(c, f, s, v), g) == shown(c, g),
{
    let d = typed_in(c, f, s, v);
    if d != c {
        if counted(f) {
            lemma_numbered_for_one(c, f, g, count(d, f), amount(d, f));
        } else if f.sort() == Kind::Float {
            lemma_numbered_for_one(c, f, g, 0, amount(d, f));
        }
    }
}

/// Choosing for a field, or going through its choices, leaves what every other field shows as it was.
pub proof fn law_choosing_leaves_other_fields(
    c: ConfigV,
    paths: PathsV,
    f: Field,
    g: Field,
    n: int,
)
    requires
        f != g,
    ensures
        shown(cycled(c, paths, f, n), g) == shown(c, g),
        shown(selected(c, paths, f, n), g) == shown(c, g),
{
    lemma_chosen_for_one(c, paths, f, g, n);
    lemma_chosen_for_one(c, paths, f, g, 0);
    lemma_chosen_for_one(c, paths, f, g, choices(paths, f).len() - 1);
    let i = (wrap64(picked(c, paths, f)) + n) % slots(paths, f);
    lemma_chosen_for_one(c, paths, f, g, i);
}

/// Adjusting a field leaves what every other field shows as it was.
pub proof fn law_adjusting_leaves_other_fields(
    c: ConfigV,
    paths: PathsV,
    f: Field,
    g: Field,
    n: int,
    v: Option<DoubleV>,
)
    requires
        f != g,
    ensures
        shown(adjusted(c, paths, f, n, v), g) == shown(c, g),
{
    let d = adjusted(c, paths, f, n, v);
    if counted(f) {
        lemma_numbered_for_one(c, f, g, count(d, f), amount(d, f));
    } else if f.sort() == Kind::Float {
        lemma_numbered_for_one(c, f, g, 0, amount(d, f));
    } else {
        law_choosing_leaves_other_fields(c, paths, f, g, n);
    }
}

/// Turning a switch leaves what every other field shows as it was, but that the overlap goes off with
/// the memory saver on.
pub proof fn law_turning_leaves_other_fields(c: ConfigV, f: Field, g: Field)
    requires
        f != g,
        !(f is MemSaver && g is PipelineOverlap),
    ensures
        shown(toggled(c, f), g) == shown(c, g),
{
}

// --- whole numbers ---------------------------------------------------------------------------------

/// The least that a whole number may be.
pub open spec fn least(f: Field) -> int {
    match f {
        Field::FlowWarmup => 0,
        Field::GraphCtx | Field::WeightCtx => 8,
        _ => 1,
    }
}

/// The most that a whole number may be.
pub open spec fn most(f: Field) -> int {
    match f {
        Field::Steps => 500,
        Field::TopK => 2000,
        Field::FlowInterval | Field::FlowWarmup => 20,
        Field::EnsembleTakes => 16,
        _ => 4096,
    }
}

/// Whether a field is a whole number that has a least and a most.
pub open spec fn limited(f: Field) -> bool {
    f is Steps || f is TopK || f is FlowInterval || f is FlowWarmup || f is EnsembleTakes || f
        is GraphCtx || f is WeightCtx
}

/// The number in the range of a field that is nearest to a number.
pub open spec fn nearest(f: Field, n: int) -> nat {
    (if n < least(f) {
        least(f)
    } else if n > most(f) {
        most(f)
    } else {
        n
    }) as nat
}

proof fn lemma_numeral_is_bare(n: int)
    ensures
        trimmed(signed_decimal(n)) == signed_decimal(n),
        signed(signed_decimal(n)) == Some(n),
        n >= 0 ==> unsigned(signed_decimal(n)) == Some(n as nat),
{
    let m = (if n < 0 {
        -n
    } else {
        n
    }) as nat;
    law_decimal_reads_back(m);
    let d = decimal(m);
    let s = signed_decimal(n);
    assert(is_digit(d[0]) && is_digit(d[d.len() - 1]));
    assert(s.last() == d.last());
    assert(!white(s[0]) && !white(s.last()));
    if n < 0 {
        assert(s.skip(1) =~= d);
    }
}

/// A whole number that is typed is what its field shows, or the nearest to it in its range.
pub proof fn law_typed_number_is_shown(c: ConfigV, f: Field, n: int)
    requires
        limited(f),
        i64::MIN <= n <= i64::MAX,
    ensures
        shown(typed_in(c, f, signed_decimal(n), None), f) == decimal(nearest(f, n)),
{
    lemma_numeral_is_bare(n);
}

/// Where a whole number has no range, what is typed is shown as far as it can be held; else the field
/// stays as it was.
pub proof fn law_typed_number_without_range_is_shown(c: ConfigV, f: Field, n: int)
    requires
        f is FlowHop || f is EnsemblePrefix || f is Seed,
    ensures
        ({
            let limit = if f is Seed {
                u64::MAX as int
            } else {
                u32::MAX as int
            };
            &&& 0 <= n <= limit ==> shown(typed_in(c, f, signed_decimal(n), None), f) == decimal(
                n as nat,
            )
            &&& n > limit || n < 0 ==> typed_in(c, f, signed_decimal(n), None) == c
        }),
{
    lemma_numeral_is_bare(n);
    if n < 0 {
        let s = signed_decimal(n);
        assert(s[0] == '-');
        assert(!is_digit(s[0]));
    }
}

/// A text that holds anything but digits and a sign leaves a whole number as it was.
pub proof fn law_no_number_is_not_taken(c: ConfigV, f: Field, s: Seq<char>, i: int)
    requires
        limited(f) || f is FlowHop || f is EnsemblePrefix || f is Seed,
        0 <= i < trimmed(s).len(),
        !is_digit(trimmed(s)[i]),
        i > 0 || (trimmed(s)[0] != '+' && trimmed(s)[0] != '-'),
    ensures
        typed_in(c, f, s, None) == c,
{
    let t = trimmed(s);
    if i > 0 {
        assert(t.skip(1)[i - 1] == t[i]);
    }
}

/// A step changes a whole number by one; the sizes of memory by eight and the frames by twenty-five,
/// but not out of the range.
pub proof fn law_step_changes_the_number(c: ConfigV, paths: PathsV, f: Field, k: int)
    ensures
        ({
            let d = adjusted(c, paths, f, k, None);
            &&& f is GraphCtx ==> shown(d, f) == decimal(nearest(f, c.graph_context_mb + 8 * k))
            &&& f is WeightCtx ==> shown(d, f) == decimal(nearest(f, c.weight_context_mb + 8 * k))
            &&& f is Steps ==> shown(d, f) == decimal(nearest(f, c.num_inference_steps + k))
            &&& f is TopK ==> shown(d, f) == decimal(nearest(f, c.top_k + k))
            &&& f is FlowInterval ==> shown(d, f) == decimal(nearest(f, c.flow_uncond_interval + k))
            &&& f is FlowWarmup ==> shown(d, f) == decimal(nearest(f, c.flow_uncond_warmup + k))
            &&& f is EnsembleTakes ==> shown(d, f) == decimal(nearest(f, c.ensemble_takes + k))
            &&& f is FlowHop && 0 <= c.flow_chunk_hop_frames + 25 * k <= u32::MAX ==> shown(d, f)
                == decimal((c.flow_chunk_hop_frames + 25 * k) as nat)
            &&& f is FlowHop && c.flow_chunk_hop_frames + 25 * k < 0 ==> shown(d, f) == decimal(0)
            &&& f is EnsemblePrefix && 0 <= c.ensemble_prefix_frames + 25 * k <= u32::MAX ==> shown(d, f)
                == decimal((c.ensemble_prefix_frames + 25 * k) as nat)
            &&& f is EnsemblePrefix && c.ensemble_prefix_frames + 25 * k < 0 ==> shown(d, f) == decimal(
                0,
            )
            &&& f is Seed && c.seed <= i64::MAX && 0 <= c.seed + k <= i64::MAX ==> shown(d, f)
                == decimal((c.seed + k) as nat)
            &&& f is Seed && c.seed <= i64::MAX && c.seed + k < 0 ==> shown(d, f) == decimal(0)
        }),
{
}

/// Settings from elsewhere are put in the same ranges as what is typed: each whole number becomes the
/// nearest in its range, and the others stay.
pub proof fn law_sanitized_numbers_are_the_nearest(c: ConfigV, f: Field)
    ensures
        limited(f) ==> shown(c.sanitized(), f) == decimal(nearest(f, count(c, f) as int)),
        !limited(f) && (f.sort() == Kind::Int || f.sort() == Kind::Text || f.sort() == Kind::Multiline
            || f.sort() == Kind::Bool) ==> shown(c.sanitized(), f) == shown(c, f),
        in_lists(c) && f.sort() == Kind::Select && !(f is Backend) ==> shown(c.sanitized(), f) == shown(
            c,
            f,
        ),
{
}

// --- numbers with a fraction -----------------------------------------------------------------------

/// The least and the most that a number with a fraction may be.
pub open spec fn span(f: Field) -> (int, int) {
    if f is Duration {
        (1, 3600)
    } else {
        (0, 20)
    }
}

/// A number with a fraction that is typed is taken as it is where it is in its range, and else becomes
/// the bound that it is beyond; what is infinite or no number becomes the lower one.
pub proof fn law_typed_fraction_is_put_in_range(c: ConfigV, f: Field, s: Seq<char>, v: DoubleV)
    requires
        f is Duration || f is Guidance || f is ArGuidance,
    ensures
        ({
            let (lo, hi) = span(f);
            let d = typed_in(c, f, s, Some(v));
            let bits = if f is Duration {
                d.duration_sec.bits
            } else if f is Guidance {
                d.guidance_scale.bits
            } else {
                d.ar_guidance_scale.bits
            };
            &&& finite(v.bits) && whole(lo) <= worth(v.bits) <= whole(hi) ==> bits == v.bits && shown(
                d,
                f,
            ) == v.text
            &&& !finite(v.bits) || worth(v.bits) < whole(lo) ==> worth(bits) == whole(lo) && shown(d, f)
                == decimal(lo as nat)
            &&& finite(v.bits) && worth(v.bits) > whole(hi) ==> worth(bits) == whole(hi)
            &&& typed_in(c, f, s, None) == c
        }),
{
    lemma_bounds_are_whole();
    reveal_strlit("0");
    reveal_strlit("1");
    assert(decimal(0) =~= "0"@);
    assert(decimal(1) =~= "1"@);
    vstd::arithmetic::power2::lemma_pow2_pos(1074);
}

/// A number with a fraction that was moved is taken as it is where it is in its range, and else becomes
/// the bound that it is beyond; the length has no upper one.
pub proof fn law_moved_fraction_is_put_in_range(
    c: ConfigV,
    paths: PathsV,
    f: Field,
    k: int,
    v: DoubleV,
)
    requires
        f is Duration || f is Guidance || f is ArGuidance,
        !undefined(v.bits),
    ensures
        ({
            let (lo, hi) = span(f);
            let d = adjusted(c, paths, f, k, Some(v));
            let bits = if f is Duration {
                d.duration_sec.bits
            } else if f is Guidance {
                d.guidance_scale.bits
            } else {
                d.ar_guidance_scale.bits
            };
            &&& whole(lo) <= worth(v.bits) && (f is Duration || worth(v.bits) <= whole(hi)) ==> bits
                == v.bits && shown(d, f) == v.text
            &&& worth(v.bits) < whole(lo) ==> worth(bits) == whole(lo)
            &&& !(f is Duration) && worth(v.bits) > whole(hi) ==> worth(bits) == whole(hi)
            &&& adjusted(c, paths, f, k, None) == c
        }),
{
    lemma_bounds_are_whole();
}

// --- choices ---------------------------------------------------------------------------------------

/// What is chosen by its index is what the field then shows: the choice of that index, counted from one
/// behind the automatic one where there is one. Behind the last choice, the automatic one is taken, or
/// else the last.
pub proof fn law_chosen_text_is_shown(c: ConfigV, paths: PathsV, f: Field, i: int)
    requires
        f.sort() == Kind::Select,
        i >= 0,
    ensures
        ({
            let v = choices(paths, f);
            let d = selected(c, paths, f, i);
            let auto = f is Backend || f is Lm || f is Flow || f is Depth;
            &&& auto && 0 < i <= v.len() && v[i - 1].len() > 0 ==> shown(d, f) == v[i - 1]
            &&& auto && (i == 0 || i > v.len()) ==> shown(d, f) == "(auto)"@
            &&& !auto && i < v.len() && !(f is Genre && i == 7) ==> shown(d, f) == v[i]
            &&& !auto && i >= v.len() ==> d == selected(c, paths, f, v.len() - 1)
            &&& f is Genre && i == 7 ==> d.custom_genre() && d.genre_custom == c.genre_custom
        }),
{
}

/// A component can be chosen from just the files of its kind, a backend from the five that there are,
/// and a style, a mood and vocals from their lists.
pub proof fn law_choices_are_those_of_the_field(paths: PathsV, n: Seq<char>)
    ensures
        choices(paths, Field::Lm).contains(n) <==> paths.disk.names.contains(n) && begins(
            n,
            "language_model_"@,
        ) && ends(n, ".gguf"@),
        choices(paths, Field::Flow).contains(n) <==> paths.disk.names.contains(n) && begins(
            n,
            "transformer_"@,
        ) && ends(n, ".gguf"@),
        choices(paths, Field::Depth).contains(n) <==> paths.disk.names.contains(n) && begins(
            n,
            "rvq_depth_decoder_"@,
        ) && ends(n, ".gguf"@),
        choices(paths, Field::Backend) == seq!["cuda"@, "metal"@, "vulkan"@, "hip"@, "cpu"@],
        choices(paths, Field::Vocals) == seq![
            "a clear female vocal"@,
            "a warm male vocal"@,
            "a duet with male and female vocals"@,
            "no vocals (instrumental)"@,
        ],
        choices(paths, Field::Mood) == seq![
            "uplifting"@,
            "melancholic"@,
            "energetic"@,
            "calm"@,
            "dark"@,
            "romantic"@,
            "dreamy"@,
            "defiant"@,
        ],
        choices(paths, Field::Genre) == seq![
            "bright pop rock with clean drums and crisp rhythm guitars"@,
            "mellow lo-fi hip hop with warm vinyl crackle and dusty drums"@,
            "epic cinematic orchestral score with soaring strings and big percussion"@,
            "retro synthwave with pulsing analog bass and gated 80s drums"@,
            "intimate acoustic ballad with fingerpicked guitar and soft piano"@,
            "high-energy EDM festival anthem with a hard synth drop"@,
            "smooth late-night jazz with brushed drums and a walking bass"@,
            "custom..."@,
        ],
{
    law_components_are_its_files(paths.disk.names, "language_model_"@, n);
    law_components_are_its_files(paths.disk.names, "transformer_"@, n);
    law_components_are_its_files(paths.disk.names, "rvq_depth_decoder_"@, n);
}

/// An index beyond its list stands for the last choice: in what is shown, and in what settings from
/// elsewhere become.
pub proof fn law_index_beyond_the_list_is_the_last(c: ConfigV)
    ensures
        c.mood >= 8 ==> shown(c, Field::Mood) == "defiant"@ && c.sanitized().mood == 7,
        c.vocals >= 4 ==> c.instrumental() && shown(c, Field::Vocals) == "no vocals (instrumental)"@
            && c.sanitized().vocals == 3,
        c.genre >= 8 ==> c.custom_genre() && c.sanitized().genre == 7,
        c.vocals < 4 ==> (c.instrumental() <==> c.vocals == 3),
        c.genre < 8 ==> (c.custom_genre() <==> c.genre == 7),
{
}

/// A backend from elsewhere stays where there is one of its name, and becomes the automatic choice where
/// there is none.
pub proof fn law_unknown_backend_is_dropped(c: ConfigV)
    ensures
        ({
            let b = c.backend;
            let known = b == "cuda"@ || b == "metal"@ || b == "vulkan"@ || b == "hip"@ || b == "cpu"@;
            &&& known ==> c.sanitized().backend == b
            &&& !known ==> c.sanitized().backend.len() == 0
        }),
{
    let v = texts(BACKENDS@);
    assert(v[0] == "cuda"@ && v[1] == "metal"@ && v[2] == "vulkan"@ && v[3] == "hip"@ && v[4] == "cpu"@);
    assert(v.len() == 5);
}

} // verus!
