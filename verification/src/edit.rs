//! Changing the settings field by field: choosing, cycling, adjusting, toggling, typing.

use vstd::arithmetic::div_mod::{lemma_fundamental_div_mod, lemma_fundamental_div_mod_converse};
use vstd::prelude::*;

use crate::config::{capped, settle_duration, settle_scale, Config, ConfigV, GENRES, MOODS, VOCALS};
use crate::detect::{
    component_files, components, lemma_slot, texts, to_list, Paths, PathsV, BACKENDS,
};
use crate::double::{
    at_least, clamp, clamped, finite, make, raise, settled, undefined, valued, Double, DoubleV, ONE,
    THREE_THOUSAND_SIX_HUNDRED, TWENTY, ZERO,
};
use crate::field::{Field, Kind};
use crate::number::{
    decimal, read_i64, read_u32, read_u64, signed, unsigned, up_to, within_i64, write_u32,
    write_u64,
};
use crate::text::{is_blank, same, trim, trimmed, views};

verus! {

// --- choices --------------------------------------------------------------------------

/// What can be chosen for a field.
pub open spec fn choices(paths: PathsV, f: Field) -> Seq<Seq<char>> {
    match f {
        Field::Genre => texts(GENRES@),
        Field::Mood => texts(MOODS@),
        Field::Vocals => texts(VOCALS@),
        Field::Backend => texts(BACKENDS@),
        Field::Lm => components(paths.disk.names, "language_model_"@),
        Field::Flow => components(paths.disk.names, "transformer_"@),
        Field::Depth => components(paths.disk.names, "rvq_depth_decoder_"@),
        _ => Seq::<Seq<char>>::empty(),
    }
}

/// What can be chosen for a field; for a component these are the files in the model directory.
pub fn options(paths: &Paths, f: Field) -> (r: Vec<String>)
    ensures
        views(r@) == choices(paths@, f),
        r@.len() == choices(paths@, f).len(),
{
    let r = match f {
        Field::Genre => to_list(&GENRES),
        Field::Mood => to_list(&MOODS),
        Field::Vocals => to_list(&VOCALS),
        Field::Backend => to_list(&BACKENDS),
        Field::Lm => component_files(&paths.disk.names, "language_model_"),
        Field::Flow => component_files(&paths.disk.names, "transformer_"),
        Field::Depth => component_files(&paths.disk.names, "rvq_depth_decoder_"),
        _ => Vec::new(),
    };
    assert(views(r@) =~= choices(paths@, f));
    assert(views(r@).len() == r@.len());
    r
}

/// What is chosen for a field that has an automatic choice; nothing is that choice.
pub open spec fn chosen(c: ConfigV, f: Field) -> Seq<char> {
    match f {
        Field::Backend => c.backend,
        Field::Lm => c.lm_gguf,
        Field::Flow => c.flow_gguf,
        _ => c.depth_gguf,
    }
}

/// The settings with another choice for a field that has an automatic one.
pub open spec fn with_chosen(c: ConfigV, f: Field, s: Seq<char>) -> ConfigV {
    match f {
        Field::Backend => ConfigV { backend: s, ..c },
        Field::Lm => ConfigV { lm_gguf: s, ..c },
        Field::Flow => ConfigV { flow_gguf: s, ..c },
        _ => ConfigV { depth_gguf: s, ..c },
    }
}

fn get_chosen(c: &Config, f: Field) -> (r: String)
    ensures
        r@ == chosen(c@, f),
{
    match f {
        Field::Backend => c.backend.clone(),
        Field::Lm => c.lm_gguf.clone(),
        Field::Flow => c.flow_gguf.clone(),
        _ => c.depth_gguf.clone(),
    }
}

fn set_chosen(c: &mut Config, f: Field, s: String)
    ensures
        final(c)@ == with_chosen(old(c)@, f, s@),
{
    match f {
        Field::Backend => {
            c.backend = s;
        },
        Field::Lm => {
            c.lm_gguf = s;
        },
        Field::Flow => {
            c.flow_gguf = s;
        },
        _ => {
            c.depth_gguf = s;
        },
    }
}

/// The first place of a text in a list; the length where it is not in it.
pub open spec fn place_of(v: Seq<Seq<char>>, s: Seq<char>) -> int
    decreases v.len(),
{
    if v.len() == 0 || v[0] == s {
        0
    } else {
        1 + place_of(v.skip(1), s)
    }
}

pub proof fn lemma_place_of(v: Seq<Seq<char>>, s: Seq<char>)
    ensures
        0 <= place_of(v, s) <= v.len(),
        place_of(v, s) < v.len() ==> v[place_of(v, s)] == s,
        forall|j: int| 0 <= j < place_of(v, s) ==> #[trigger] v[j] != s,
    decreases v.len(),
{
    if v.len() > 0 && v[0] != s {
        lemma_place_of(v.skip(1), s);
        assert forall|j: int| 0 <= j < place_of(v, s) implies #[trigger] v[j] != s by {
            if j > 0 {
                assert(v.skip(1)[j - 1] == v[j]);
            }
        }
    }
}

fn find_place(v: &Vec<String>, s: &str) -> (r: usize)
    ensures
        r == place_of(views(v@), s@),
        r <= v@.len(),
{
    let mut i: usize = 0;
    assert(views(v@).skip(0) =~= views(v@));
    while i < v.len()
        invariant
            i <= v@.len(),
            place_of(views(v@), s@) == i + place_of(views(v@).skip(i as int), s@),
        decreases v@.len() - i,
    {
        assert(views(v@).skip(i as int)[0] == v@[i as int]@);
        assert(views(v@).skip(i as int).skip(1) =~= views(v@).skip(i + 1));
        if same(v[i].as_str(), s) {
            return i;
        }
        i = i + 1;
    }
    i
}

/// The index of what is chosen for a field; zero is the automatic choice where there is one.
pub open spec fn picked(c: ConfigV, paths: PathsV, f: Field) -> int {
    match f {
        Field::Genre => capped(c.genre, 8),
        Field::Mood => c.mood as int,
        Field::Vocals => c.vocals as int,
        Field::Backend | Field::Lm | Field::Flow | Field::Depth => {
            let opts = choices(paths, f);
            let k = place_of(opts, chosen(c, f));
            if k < opts.len() {
                k + 1
            } else {
                0
            }
        },
        _ => 0,
    }
}

/// The index of what is chosen for a field.
pub fn select_index(c: &Config, paths: &Paths, f: Field) -> (r: usize)
    requires
        choices(paths@, f).len() < isize::MAX,
    ensures
        r == picked(c@, paths@, f),
{
    match f {
        Field::Genre => c.genre_index(),
        Field::Mood => c.mood,
        Field::Vocals => c.vocals,
        Field::Backend | Field::Lm | Field::Flow | Field::Depth => {
            let opts = options(paths, f);
            let k = find_place(&opts, get_chosen(c, f).as_str());
            if k < opts.len() {
                k + 1
            } else {
                0
            }
        },
        _ => 0,
    }
}

// --- cycling --------------------------------------------------------------------------

/// How many choices there are for a field, with the automatic one.
pub open spec fn slots(paths: PathsV, f: Field) -> int {
    choices(paths, f).len() + if f.automatic() {
        1int
    } else {
        0
    }
}

/// An index read as a number of 64 bits with a sign.
pub open spec fn wrap64(v: int) -> int {
    if v > i64::MAX {
        v - 0x1_0000_0000_0000_0000
    } else {
        v
    }
}

/// The settings with the choice of an index for a field.
pub open spec fn with_index(c: ConfigV, paths: PathsV, f: Field, i: int) -> ConfigV {
    match f {
        Field::Genre => ConfigV { genre: i as usize, ..c },
        Field::Mood => ConfigV { mood: i as usize, ..c },
        Field::Vocals => ConfigV { vocals: i as usize, ..c },
        Field::Backend | Field::Lm | Field::Flow | Field::Depth => with_chosen(
            c,
            f,
            if i == 0 {
                Seq::<char>::empty()
            } else {
                choices(paths, f)[i - 1]
            },
        ),
        _ => c,
    }
}

/// The settings with the choice for a field moved on, around the end.
pub open spec fn cycled(c: ConfigV, paths: PathsV, f: Field, dir: int) -> ConfigV {
    if slots(paths, f) == 0 {
        c
    } else {
        with_index(c, paths, f, (wrap64(picked(c, paths, f)) + dir) % slots(paths, f))
    }
}

/// Whether moving the choice stays within 64 bits.
pub open spec fn can_cycle(c: ConfigV, paths: PathsV, f: Field, dir: int) -> bool {
    &&& choices(paths, f).len() < isize::MAX
    &&& slots(paths, f) > 0 ==> i64::MIN <= wrap64(picked(c, paths, f)) + dir <= i64::MAX
}

fn around(v: i64, n: i64) -> (r: i64)
    requires
        n > 0,
    ensures
        r == v as int % n as int,
        0 <= r < n,
{
    if v >= 0 {
        let m: u64 = (v as u64) % (n as u64);
        m as i64
    } else {
        let w: u64 = (-(v as i128)) as u64;
        let k: u64 = w % (n as u64);
        proof {
            let q = w as int / n as int;
            lemma_fundamental_div_mod(w as int, n as int);
            if k == 0 {
                assert(v as int == (-q) * n + 0) by (nonlinear_arith)
                    requires
                        w as int == n * q + k,
                        w as int == -(v as int),
                        k == 0,
                ;
                lemma_fundamental_div_mod_converse(v as int, n as int, -q, 0);
            } else {
                assert(v as int == (-q - 1) * n + (n - k)) by (nonlinear_arith)
                    requires
                        w as int == n * q + k,
                        w as int == -(v as int),
                ;
                lemma_fundamental_div_mod_converse(v as int, n as int, -q - 1, n - k);
            }
        }
        if k == 0 {
            0
        } else {
            n - k as i64
        }
    }
}

fn signed_index(i: usize) -> (r: i64)
    ensures
        r == wrap64(i as int),
{
    if i as u64 > i64::MAX as u64 {
        (i as i128 - 0x1_0000_0000_0000_0000) as i64
    } else {
        i as i64
    }
}

/// Chooses by index.
fn choose_index(c: &mut Config, f: Field, opts: &Vec<String>, i: usize)
    requires
        f.automatic() ==> i <= opts@.len(),
    ensures
        forall|paths: PathsV| #[trigger]
            choices(paths, f) == views(opts@) ==> final(c)@ == with_index(
                old(c)@,
                paths,
                f,
                i as int,
            ),
{
    match f {
        Field::Genre => {
            c.genre = i;
        },
        Field::Mood => {
            c.mood = i;
        },
        Field::Vocals => {
            c.vocals = i;
        },
        Field::Backend | Field::Lm | Field::Flow | Field::Depth => {
            let s = if i == 0 {
                String::new()
            } else {
                assert(views(opts@)[i - 1] == opts@[i - 1]@);
                opts[i - 1].clone()
            };
            set_chosen(c, f, s);
        },
        _ => {},
    }
}

/// Moves the choice for a field on, around the end; backends and components have a place for
/// the automatic choice.
pub fn cycle(c: &mut Config, paths: &Paths, f: Field, dir: i64)
    requires
        can_cycle(old(c)@, paths@, f, dir as int),
    ensures
        final(c)@ == cycled(old(c)@, paths@, f, dir as int),
{
    let opts = options(paths, f);
    let n: i64 = opts.len() as i64 + (if f.has_auto() { 1 } else { 0 });
    if n == 0 {
        return;
    }
    let cur = signed_index(select_index(c, paths, f));
    let next = around(cur + dir, n);
    choose_index(c, f, &opts, next as usize);
}

/// The settings with the choice of an index, or the last one, or the automatic one where there
/// is no such choice.
pub open spec fn selected(c: ConfigV, paths: PathsV, f: Field, i: int) -> ConfigV {
    let n = choices(paths, f).len();
    if f.automatic() {
        with_index(
            c,
            paths,
            f,
            if i <= n {
                i
            } else {
                0
            },
        )
    } else {
        with_index(
            c,
            paths,
            f,
            if i < n {
                i
            } else {
                n - 1
            },
        )
    }
}

/// Chooses by index, as far as there are choices.
pub fn set_select(c: &mut Config, paths: &Paths, f: Field, idx: usize)
    ensures
        final(c)@ == selected(old(c)@, paths@, f, idx as int),
{
    let opts = options(paths, f);
    let n = opts.len();
    if f.has_auto() {
        choose_index(
            c,
            f,
            &opts,
            if idx <= n {
                idx
            } else {
                0
            },
        );
    } else if n > 0 {
        choose_index(
            c,
            f,
            &opts,
            if idx < n {
                idx
            } else {
                n - 1
            },
        );
    }
}

// --- whole numbers ----------------------------------------------------------------------

/// Whether the field is a whole number of 32 bits.
pub open spec fn counted(f: Field) -> bool {
    bounded(f) || f is FlowHop || f is EnsemblePrefix
}

/// Whether the field is a whole number with a range.
pub open spec fn bounded(f: Field) -> bool {
    ||| f is Steps
    ||| f is TopK
    ||| f is FlowInterval
    ||| f is FlowWarmup
    ||| f is EnsembleTakes
    ||| f is GraphCtx
    ||| f is WeightCtx
}

/// The range of a field.
pub open spec fn range(f: Field) -> (int, int) {
    match f {
        Field::Steps => (1, 500),
        Field::TopK => (1, 2000),
        Field::FlowInterval => (1, 20),
        Field::FlowWarmup => (0, 20),
        Field::EnsembleTakes => (1, 16),
        _ => (8, 4096),
    }
}

/// By how much a step changes a field.
pub open spec fn stride(f: Field) -> int {
    match f {
        Field::FlowHop | Field::EnsemblePrefix => 25,
        Field::GraphCtx | Field::WeightCtx => 8,
        _ => 1,
    }
}

/// The whole number of a field.
pub open spec fn count(c: ConfigV, f: Field) -> u32 {
    match f {
        Field::Steps => c.num_inference_steps,
        Field::TopK => c.top_k,
        Field::FlowInterval => c.flow_uncond_interval,
        Field::FlowWarmup => c.flow_uncond_warmup,
        Field::FlowHop => c.flow_chunk_hop_frames,
        Field::EnsembleTakes => c.ensemble_takes,
        Field::EnsemblePrefix => c.ensemble_prefix_frames,
        Field::GraphCtx => c.graph_context_mb,
        _ => c.weight_context_mb,
    }
}

/// The settings with another whole number in a field.
pub open spec fn with_count(c: ConfigV, f: Field, v: u32) -> ConfigV {
    match f {
        Field::Steps => ConfigV { num_inference_steps: v, ..c },
        Field::TopK => ConfigV { top_k: v, ..c },
        Field::FlowInterval => ConfigV { flow_uncond_interval: v, ..c },
        Field::FlowWarmup => ConfigV { flow_uncond_warmup: v, ..c },
        Field::FlowHop => ConfigV { flow_chunk_hop_frames: v, ..c },
        Field::EnsembleTakes => ConfigV { ensemble_takes: v, ..c },
        Field::EnsemblePrefix => ConfigV { ensemble_prefix_frames: v, ..c },
        Field::GraphCtx => ConfigV { graph_context_mb: v, ..c },
        _ => ConfigV { weight_context_mb: v, ..c },
    }
}

fn get_count(c: &Config, f: Field) -> (r: u32)
    ensures
        r == count(c@, f),
{
    match f {
        Field::Steps => c.num_inference_steps,
        Field::TopK => c.top_k,
        Field::FlowInterval => c.flow_uncond_interval,
        Field::FlowWarmup => c.flow_uncond_warmup,
        Field::FlowHop => c.flow_chunk_hop_frames,
        Field::EnsembleTakes => c.ensemble_takes,
        Field::EnsemblePrefix => c.ensemble_prefix_frames,
        Field::GraphCtx => c.graph_context_mb,
        _ => c.weight_context_mb,
    }
}

fn set_count(c: &mut Config, f: Field, v: u32)
    ensures
        final(c)@ == with_count(old(c)@, f, v),
{
    match f {
        Field::Steps => {
            c.num_inference_steps = v;
        },
        Field::TopK => {
            c.top_k = v;
        },
        Field::FlowInterval => {
            c.flow_uncond_interval = v;
        },
        Field::FlowWarmup => {
            c.flow_uncond_warmup = v;
        },
        Field::FlowHop => {
            c.flow_chunk_hop_frames = v;
        },
        Field::EnsembleTakes => {
            c.ensemble_takes = v;
        },
        Field::EnsemblePrefix => {
            c.ensemble_prefix_frames = v;
        },
        Field::GraphCtx => {
            c.graph_context_mb = v;
        },
        _ => {
            c.weight_context_mb = v;
        },
    }
}

fn range_of(f: Field) -> (r: (i64, i64))
    ensures
        (r.0 as int, r.1 as int) == range(f),
        0 <= r.0 <= r.1 <= 4096,
{
    match f {
        Field::Steps => (1, 500),
        Field::TopK => (1, 2000),
        Field::FlowInterval => (1, 20),
        Field::FlowWarmup => (0, 20),
        Field::EnsembleTakes => (1, 16),
        _ => (8, 4096),
    }
}

fn stride_of(f: Field) -> (r: i64)
    ensures
        r == stride(f),
        1 <= r <= 25,
{
    match f {
        Field::FlowHop | Field::EnsemblePrefix => 25,
        Field::GraphCtx | Field::WeightCtx => 8,
        _ => 1,
    }
}

/// A number, or the bound that it is beyond.
pub open spec fn within(v: int, lo: int, hi: int) -> int {
    if v < lo {
        lo
    } else if v > hi {
        hi
    } else {
        v
    }
}

fn put_within(v: i64, lo: i64, hi: i64) -> (r: i64)
    requires
        lo <= hi,
    ensures
        r == within(v as int, lo as int, hi as int),
        lo <= r <= hi,
{
    if v < lo {
        lo
    } else if v > hi {
        hi
    } else {
        v
    }
}

// --- adjusting --------------------------------------------------------------------------

/// The number with a fraction in a field.
pub open spec fn amount(c: ConfigV, f: Field) -> DoubleV {
    match f {
        Field::Duration => c.duration_sec,
        Field::Guidance => c.guidance_scale,
        _ => c.ar_guidance_scale,
    }
}

/// The settings with another number in a field that has a fraction.
pub open spec fn with_amount(c: ConfigV, f: Field, v: DoubleV) -> ConfigV {
    match f {
        Field::Duration => ConfigV { duration_sec: v, ..c },
        Field::Guidance => ConfigV { guidance_scale: v, ..c },
        _ => ConfigV { ar_guidance_scale: v, ..c },
    }
}

/// The number in a field that has a fraction.
pub fn get_amount(c: &Config, f: Field) -> (r: Double)
    ensures
        r@ == amount(c@, f),
{
    match f {
        Field::Duration => c.duration_sec.clone(),
        Field::Guidance => c.guidance_scale.clone(),
        _ => c.ar_guidance_scale.clone(),
    }
}

fn set_amount(c: &mut Config, f: Field, v: Double)
    ensures
        final(c)@ == with_amount(old(c)@, f, v@),
{
    match f {
        Field::Duration => {
            c.duration_sec = v;
        },
        Field::Guidance => {
            c.guidance_scale = v;
        },
        _ => {
            c.ar_guidance_scale = v;
        },
    }
}

/// A number that was moved by a step, put back in its range.
pub open spec fn moved_amount(f: Field, v: DoubleV) -> DoubleV {
    if f is Duration {
        at_least(v, valued(ONE, "1"@))
    } else {
        clamped(v, valued(ZERO, "0"@), valued(TWENTY, "20"@))
    }
}

/// The settings with a field adjusted by a number of steps. `moved` is what the field's own
/// number and the steps add up to, where it has a fraction.
pub open spec fn adjusted(
    c: ConfigV,
    paths: PathsV,
    f: Field,
    delta: int,
    moved: Option<DoubleV>,
) -> ConfigV {
    if f.sort() == Kind::Float {
        match moved {
            Some(v) => with_amount(c, f, moved_amount(f, v)),
            None => c,
        }
    } else if bounded(f) {
        let (lo, hi) = range(f);
        with_count(c, f, within(count(c, f) + stride(f) * delta, lo, hi) as u32)
    } else if counted(f) {
        let sum = count(c, f) + stride(f) * delta;
        with_count(
            c,
            f,
            (if sum < 0 {
                0
            } else {
                sum % 0x1_0000_0000
            }) as u32,
        )
    } else if f is Seed {
        ConfigV { seed: within(wrap64(c.seed as int) + delta, 0, i64::MAX as int) as u64, ..c }
    } else {
        cycled(c, paths, f, delta)
    }
}

/// Whether adjusting stays within 64 bits.
pub open spec fn can_adjust(c: ConfigV, paths: PathsV, f: Field, delta: int) -> bool {
    if counted(f) {
        &&& i64::MIN <= stride(f) * delta <= i64::MAX
        &&& i64::MIN <= count(c, f) + stride(f) * delta <= i64::MAX
    } else {
        f.sort() == Kind::Select ==> can_cycle(c, paths, f, delta)
    }
}

/// The optional number.
pub open spec fn opt_amount(v: Option<Double>) -> Option<DoubleV> {
    match v {
        Some(d) => Some(d@),
        None => None,
    }
}

/// Whether a number can be what another and a number of steps add up to: what is added to a finite
/// number gives a number, though it may be infinite.
pub open spec fn adds_up(own: DoubleV, moved: Option<DoubleV>) -> bool {
    finite(own.bits) && moved is Some ==> !undefined(moved->0.bits)
}

/// Adjusts a field by a number of steps. Where the field has a fraction, `moved` is what its
/// number and the steps add up to; nothing changes without it.
pub fn adjust(c: &mut Config, paths: &Paths, f: Field, delta: i64, moved: Option<Double>)
    requires
        can_adjust(old(c)@, paths@, f, delta as int),
        f.sort() == Kind::Float ==> adds_up(amount(old(c)@, f), opt_amount(moved)),
    ensures
        final(c)@ == adjusted(old(c)@, paths@, f, delta as int, opt_amount(moved)),
{
    match f {
        Field::Duration => {
            if let Some(v) = moved {
                c.duration_sec = raise(v, make(ONE, "1"));
            }
        },
        Field::Guidance | Field::ArGuidance => {
            if let Some(v) = moved {
                set_amount(c, f, clamp(v, make(ZERO, "0"), make(TWENTY, "20")));
            }
        },
        Field::Steps | Field::TopK | Field::FlowInterval | Field::FlowWarmup | Field::EnsembleTakes
        | Field::GraphCtx | Field::WeightCtx => {
            let (lo, hi) = range_of(f);
            let by: i64 = stride_of(f) * delta;
            let v = put_within(get_count(c, f) as i64 + by, lo, hi);
            set_count(c, f, v as u32);
        },
        Field::FlowHop | Field::EnsemblePrefix => {
            let by: i64 = stride_of(f) * delta;
            let sum: i64 = get_count(c, f) as i64 + by;
            let v: u64 = if sum < 0 {
                0
            } else {
                (sum as u64) % 0x1_0000_0000
            };
            set_count(c, f, v as u32);
        },
        Field::Seed => {
            let s: i64 = if c.seed > i64::MAX as u64 {
                (c.seed as i128 - 0x1_0000_0000_0000_0000) as i64
            } else {
                c.seed as i64
            };
            let sum: i128 = s as i128 + delta as i128;
            c.seed = if sum < 0 {
                0
            } else if sum > i64::MAX as i128 {
                i64::MAX as u64
            } else {
                sum as u64
            };
        },
        _ => {
            cycle(c, paths, f, delta);
        },
    }
}

// --- toggling ---------------------------------------------------------------------------

/// The settings with a switch turned. The overlap needs the memory saver off: it goes off with
/// the saver on, and stays off while the saver is on.
pub open spec fn toggled(c: ConfigV, f: Field) -> ConfigV {
    match f {
        Field::MemSaver => ConfigV {
            mem_saver: !c.mem_saver,
            pipeline_overlap: c.pipeline_overlap && c.mem_saver,
            ..c
        },
        Field::PipelineOverlap => ConfigV {
            pipeline_overlap: !c.pipeline_overlap && !c.mem_saver,
            ..c
        },
        _ => c,
    }
}

/// Turns a switch.
pub fn toggle(c: &mut Config, f: Field)
    ensures
        final(c)@ == toggled(old(c)@, f),
{
    match f {
        Field::MemSaver => {
            c.mem_saver = !c.mem_saver;
            if c.mem_saver {
                c.pipeline_overlap = false;
            }
        },
        Field::PipelineOverlap => {
            c.pipeline_overlap = !c.pipeline_overlap && !c.mem_saver;
        },
        _ => {},
    }
}

// --- typing -----------------------------------------------------------------------------

/// A number that was typed, put in its range.
pub open spec fn typed_amount(f: Field, v: DoubleV) -> DoubleV {
    if f is Duration {
        settled(v, valued(ONE, "1"@), valued(THREE_THOUSAND_SIX_HUNDRED, "3600"@))
    } else {
        settled(v, valued(ZERO, "0"@), valued(TWENTY, "20"@))
    }
}

/// The settings with a text typed into a field. `number` is what the trimmed text stands for as
/// a number with a fraction, where the field has one and the text is one.
pub open spec fn typed_in(c: ConfigV, f: Field, s: Seq<char>, number: Option<DoubleV>) -> ConfigV {
    let t = trimmed(s);
    if f.sort() == Kind::Float {
        match number {
            Some(v) => with_amount(c, f, typed_amount(f, v)),
            None => c,
        }
    } else if bounded(f) {
        match within_i64(signed(t)) {
            Some(v) => with_count(c, f, within(v, range(f).0, range(f).1) as u32),
            None => c,
        }
    } else if counted(f) {
        match up_to(unsigned(t), u32::MAX as nat) {
            Some(v) => with_count(c, f, v as u32),
            None => c,
        }
    } else {
        match f {
            Field::Genre => ConfigV { genre: 7, genre_custom: s, ..c },
            Field::Caption => ConfigV { caption_override: s, ..c },
            Field::Lyrics => ConfigV { lyrics: s, ..c },
            Field::Out => ConfigV { out: s, ..c },
            Field::Seed => match up_to(unsigned(t), u64::MAX as nat) {
                Some(v) => ConfigV { seed: v as u64, ..c },
                None => c,
            },
            _ => c,
        }
    }
}

/// Sets a field from a text. Where the field has a fraction, `number` is what the trimmed text
/// stands for; nothing changes without it. A text that is no number leaves a number as it was.
pub fn set_text(c: &mut Config, f: Field, s: &str, number: Option<Double>)
    ensures
        final(c)@ == typed_in(old(c)@, f, s@, opt_amount(number)),
{
    let t = trim(s);
    match f {
        Field::Genre => {
            c.genre = 7;
            c.genre_custom = s.to_string();
        },
        Field::Caption => {
            c.caption_override = s.to_string();
        },
        Field::Lyrics => {
            c.lyrics = s.to_string();
        },
        Field::Out => {
            c.out = s.to_string();
        },
        Field::Duration => {
            if let Some(v) = number {
                c.duration_sec = settle_duration(v);
            }
        },
        Field::Guidance | Field::ArGuidance => {
            if let Some(v) = number {
                set_amount(c, f, settle_scale(v));
            }
        },
        Field::Steps | Field::TopK | Field::FlowInterval | Field::FlowWarmup | Field::EnsembleTakes
        | Field::GraphCtx | Field::WeightCtx => {
            if let Some(v) = read_i64(t.as_str()) {
                let (lo, hi) = range_of(f);
                set_count(c, f, put_within(v, lo, hi) as u32);
            }
        },
        Field::FlowHop | Field::EnsemblePrefix => {
            if let Some(v) = read_u32(t.as_str()) {
                set_count(c, f, v);
            }
        },
        Field::Seed => {
            if let Some(v) = read_u64(t.as_str()) {
                c.seed = v;
            }
        },
        _ => {},
    }
}

// --- showing ----------------------------------------------------------------------------

/// A switch in words.
pub open spec fn on_off(b: bool) -> Seq<char> {
    if b {
        "true"@
    } else {
        "false"@
    }
}

/// A switch in words.
pub fn bool_str(b: bool) -> (r: &'static str)
    ensures
        r@ == on_off(b),
{
    if b {
        "true"
    } else {
        "false"
    }
}

/// What is shown in a field.
pub open spec fn shown(c: ConfigV, f: Field) -> Seq<char> {
    match f {
        Field::Genre => if c.custom_genre() && trimmed(c.genre_custom).len() > 0 {
            c.genre_custom
        } else {
            c.style()
        },
        Field::Mood => MOODS@[capped(c.mood, 8)]@,
        Field::Vocals => VOCALS@[capped(c.vocals, 4)]@,
        Field::Caption => c.caption_override,
        Field::Lyrics => c.lyrics,
        Field::Out => c.out,
        Field::Seed => decimal(c.seed as nat),
        Field::MemSaver => on_off(c.mem_saver),
        Field::PipelineOverlap => on_off(c.pipeline_overlap),
        Field::Duration | Field::Guidance | Field::ArGuidance => amount(c, f).text,
        Field::Backend | Field::Lm | Field::Flow | Field::Depth => if chosen(c, f).len() == 0 {
            "(auto)"@
        } else {
            chosen(c, f)
        },
        _ => decimal(count(c, f) as nat),
    }
}

/// What is shown in a field.
pub fn value_string(c: &Config, f: Field) -> (r: String)
    ensures
        r@ == shown(c@, f),
{
    match f {
        Field::Genre => if c.is_custom_genre() && !is_blank(c.genre_custom.as_str()) {
            c.genre_custom.clone()
        } else {
            c.genre_text()
        },
        Field::Mood => MOODS[c.mood_index()].to_string(),
        Field::Vocals => VOCALS[c.vocals_index()].to_string(),
        Field::Caption => c.caption_override.clone(),
        Field::Lyrics => c.lyrics.clone(),
        Field::Out => c.out.clone(),
        Field::Seed => write_u64(c.seed),
        Field::MemSaver => bool_str(c.mem_saver).to_string(),
        Field::PipelineOverlap => bool_str(c.pipeline_overlap).to_string(),
        Field::Duration | Field::Guidance | Field::ArGuidance => get_amount(c, f).text,
        Field::Backend | Field::Lm | Field::Flow | Field::Depth => {
            let s = get_chosen(c, f);
            if s.as_str().is_empty() {
                "(auto)".to_string()
            } else {
                s
            }
        },
        _ => write_u32(get_count(c, f)),
    }
}

// --- staying in the lists -----------------------------------------------------------------

/// Whether the chosen style, mood and vocals are in their lists.
pub open spec fn in_lists(c: ConfigV) -> bool {
    c.genre < 8 && c.mood < 8 && c.vocals < 4
}

/// There are no more component files than names.
pub proof fn lemma_components_len(names: Seq<Seq<char>>, prefix: Seq<char>)
    ensures
        components(names, prefix).len() <= names.len(),
    decreases names.len(),
{
    if names.len() > 0 {
        lemma_components_len(names.drop_last(), prefix);
        let rest = components(names.drop_last(), prefix);
        lemma_slot(rest, names.last());
    }
}

/// There are fewer choices for a field than a list can be long.
pub proof fn lemma_choices_len(paths: PathsV, f: Field)
    requires
        paths.disk.names.len() < isize::MAX,
    ensures
        choices(paths, f).len() < isize::MAX,
{
    lemma_components_len(paths.disk.names, "language_model_"@);
    lemma_components_len(paths.disk.names, "transformer_"@);
    lemma_components_len(paths.disk.names, "rvq_depth_decoder_"@);
}

/// Settings in their lists can be moved by a step, and stay in their lists.
pub proof fn lemma_step(c: ConfigV, paths: PathsV, f: Field, delta: int)
    requires
        in_lists(c),
        paths.disk.names.len() < isize::MAX,
        delta == 1 || delta == -1,
    ensures
        can_adjust(c, paths, f, delta),
        f.sort() != Kind::Float ==> in_lists(adjusted(c, paths, f, delta, None)),
{
    lemma_choices_len(paths, f);
    if f.automatic() {
        lemma_place_of(choices(paths, f), chosen(c, f));
    }
}

} // verus!
