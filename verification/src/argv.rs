//! The command line of a run.

use vstd::prelude::*;

use crate::config::{Config, ConfigV};
use crate::detect::{Paths, PathsV};
use crate::edit::{bool_str, on_off};
use crate::number::{decimal, write_u32, write_u64};
use crate::path::expanded;
use crate::text::{extend, group_views, opt, trimmed, views};

verus! {

/// The setting, or what was found where it is empty.
pub open spec fn preferred(setting: Seq<char>, found: Option<Seq<char>>) -> Option<Seq<char>> {
    if setting.len() > 0 {
        Some(setting)
    } else {
        found
    }
}

/// The setting, or what was found where it is empty.
fn pick(setting: &String, found: &Option<String>) -> (r: Option<String>)
    ensures
        opt(r) == preferred(setting@, opt(*found)),
{
    if !setting.as_str().is_empty() {
        Some(setting.clone())
    } else {
        match found {
            Some(s) => Some(s.clone()),
            None => None,
        }
    }
}

/// A key and a value.
pub struct Pair {
    pub key: String,
    pub value: String,
}

/// The texts of keys and values.
pub open spec fn pair_views(v: Seq<Pair>) -> Seq<(Seq<char>, Seq<char>)> {
    v.map_values(|p: Pair| (p.key@, p.value@))
}

/// A pair, where there is a value.
pub open spec fn if_any(key: Seq<char>, value: Option<Seq<char>>) -> Seq<(Seq<char>, Seq<char>)> {
    match value {
        Some(v) => seq![(key, v)],
        None => Seq::<(Seq<char>, Seq<char>)>::empty(),
    }
}

fn add_pair(v: &mut Vec<Pair>, key: &str, value: &str)
    ensures
        pair_views(final(v)@) == pair_views(old(v)@) + seq![(key@, value@)],
{
    let p = Pair { key: key.to_string(), value: value.to_string() };
    v.push(p);
    assert(pair_views(v@) =~= pair_views(old(v)@) + seq![(key@, value@)]);
}

fn add_if_any(v: &mut Vec<Pair>, key: &str, value: Option<String>)
    ensures
        pair_views(final(v)@) == pair_views(old(v)@) + if_any(key@, opt(value)),
{
    match value {
        Some(s) => {
            add_pair(v, key, s.as_str());
        },
        None => {
            assert(pair_views(v@) =~= pair_views(old(v)@) + if_any(key@, None));
        },
    }
}

/// Each pair as two arguments: a flag, and the key and the value with an equals sign between.
pub open spec fn flagged(
    flag: Seq<char>,
    prefix: Seq<char>,
    pairs: Seq<(Seq<char>, Seq<char>)>,
) -> Seq<Seq<char>>
    decreases pairs.len(),
{
    if pairs.len() == 0 {
        Seq::<Seq<char>>::empty()
    } else {
        flagged(flag, prefix, pairs.drop_last()).push(flag).push(
            prefix + pairs.last().0 + "="@ + pairs.last().1,
        )
    }
}

/// Writes each pair as two arguments.
fn write_pairs(flag: &str, prefix: &str, pairs: &Vec<Pair>) -> (r: Vec<String>)
    ensures
        views(r@) == flagged(flag@, prefix@, pair_views(pairs@)),
{
    broadcast use group_views;

    let mut out: Vec<String> = Vec::new();
    let ghost all = pair_views(pairs@);
    let mut i: usize = 0;
    assert(all.take(0) =~= Seq::<(Seq<char>, Seq<char>)>::empty());
    while i < pairs.len()
        invariant
            i <= pairs@.len(),
            all == pair_views(pairs@),
            views(out@) == flagged(flag@, prefix@, all.take(i as int)),
        decreases pairs@.len() - i,
    {
        assert(all.take(i + 1).drop_last() =~= all.take(i as int));
        assert(all.take(i + 1).last() == (pairs@[i as int].key@, pairs@[i as int].value@));
        let mut s = prefix.to_string();
        s.append(pairs[i].key.as_str());
        s.append("=");
        s.append(pairs[i].value.as_str());
        out.push(flag.to_string());
        out.push(s);
        i = i + 1;
    }
    assert(all.take(i as int) =~= all);
    out
}

/// The options of the session: the components, and how memory is used.
pub open spec fn session(paths: PathsV, c: ConfigV) -> Seq<(Seq<char>, Seq<char>)> {
    if_any("language_model_gguf"@, preferred(c.lm_gguf, paths.language_model)) + if_any(
        "rvq_depth_decoder_gguf"@,
        preferred(c.depth_gguf, paths.depth_decoder),
    ) + if_any("flow_transformer_gguf"@, preferred(c.flow_gguf, paths.flow_transformer)) + seq![
        ("mem_saver"@, on_off(c.mem_saver)),
        ("pipeline_overlap"@, on_off(c.pipeline_overlap)),
        ("graph_context_mb"@, decimal(c.graph_context_mb as nat)),
        ("weight_context_mb"@, decimal(c.weight_context_mb as nat)),
    ]
}

/// The options of the request: what is sung, and how it is sampled.
pub open spec fn request(c: ConfigV) -> Seq<(Seq<char>, Seq<char>)> {
    seq![
        ("lyrics"@, c.sung()),
        ("duration_sec"@, c.duration_sec.text),
        ("num_inference_steps"@, decimal(c.num_inference_steps as nat)),
        ("guidance_scale"@, c.guidance_scale.text),
        ("ar_guidance_scale"@, c.ar_guidance_scale.text),
        ("top_k"@, decimal(c.top_k as nat)),
        ("seed"@, decimal(c.seed as nat)),
        ("flow_uncond_interval"@, decimal(c.flow_uncond_interval as nat)),
        ("flow_uncond_warmup"@, decimal(c.flow_uncond_warmup as nat)),
        ("flow_chunk_hop_frames"@, decimal(c.flow_chunk_hop_frames as nat)),
        ("ensemble_takes"@, decimal(c.ensemble_takes as nat)),
        ("ensemble_prefix_frames"@, decimal(c.ensemble_prefix_frames as nat)),
    ]
}

/// The backend of a run.
pub open spec fn run_backend(paths: PathsV, c: ConfigV) -> Seq<char> {
    if c.backend.len() == 0 {
        paths.backend
    } else {
        c.backend
    }
}

/// The arguments of a run; the first is the binary.
pub open spec fn arguments(paths: PathsV, c: ConfigV) -> Seq<Seq<char>> {
    seq![
        paths.bin,
        "--task"@,
        "gen"@,
        "--family"@,
        "minimax_music3"@,
        "--model"@,
        paths.model_dir,
        "--backend"@,
        run_backend(paths, c),
    ] + flagged("--session-option"@, "minimax_music3."@, session(paths, c)) + seq![
        "--text"@,
        c.title(),
    ] + flagged("--request-option"@, ""@, request(c)) + seq![
        "--out"@,
        expanded(trimmed(c.out), paths.home),
        "--metrics"@,
    ]
}

fn session_pairs(paths: &Paths, c: &Config) -> (r: Vec<Pair>)
    ensures
        pair_views(r@) == session(paths@, c@),
{
    let mut v: Vec<Pair> = Vec::new();
    add_if_any(&mut v, "language_model_gguf", pick(&c.lm_gguf, &paths.language_model));
    add_if_any(&mut v, "rvq_depth_decoder_gguf", pick(&c.depth_gguf, &paths.depth_decoder));
    add_if_any(&mut v, "flow_transformer_gguf", pick(&c.flow_gguf, &paths.flow_transformer));
    add_pair(&mut v, "mem_saver", bool_str(c.mem_saver));
    add_pair(&mut v, "pipeline_overlap", bool_str(c.pipeline_overlap));
    add_pair(&mut v, "graph_context_mb", write_u32(c.graph_context_mb).as_str());
    add_pair(&mut v, "weight_context_mb", write_u32(c.weight_context_mb).as_str());
    assert(pair_views(v@) =~= session(paths@, c@));
    v
}

fn request_pairs(c: &Config) -> (r: Vec<Pair>)
    ensures
        pair_views(r@) == request(c@),
{
    let mut v: Vec<Pair> = Vec::new();
    add_pair(&mut v, "lyrics", c.lyrics_text().as_str());
    add_pair(&mut v, "duration_sec", c.duration_sec.text.as_str());
    add_pair(&mut v, "num_inference_steps", write_u32(c.num_inference_steps).as_str());
    add_pair(&mut v, "guidance_scale", c.guidance_scale.text.as_str());
    add_pair(&mut v, "ar_guidance_scale", c.ar_guidance_scale.text.as_str());
    add_pair(&mut v, "top_k", write_u32(c.top_k).as_str());
    add_pair(&mut v, "seed", write_u64(c.seed).as_str());
    add_pair(&mut v, "flow_uncond_interval", write_u32(c.flow_uncond_interval).as_str());
    add_pair(&mut v, "flow_uncond_warmup", write_u32(c.flow_uncond_warmup).as_str());
    add_pair(&mut v, "flow_chunk_hop_frames", write_u32(c.flow_chunk_hop_frames).as_str());
    add_pair(&mut v, "ensemble_takes", write_u32(c.ensemble_takes).as_str());
    add_pair(&mut v, "ensemble_prefix_frames", write_u32(c.ensemble_prefix_frames).as_str());
    assert(pair_views(v@) =~= request(c@));
    v
}

/// The arguments of a run; the first is the binary.
pub fn build_argv(paths: &Paths, c: &Config) -> (r: Vec<String>)
    ensures
        views(r@) == arguments(paths@, c@),
        r@.len() == arguments(paths@, c@).len(),
{
    broadcast use group_views;

    let mut a: Vec<String> = Vec::new();
    a.push(paths.bin.clone());
    a.push("--task".to_string());
    a.push("gen".to_string());
    a.push("--family".to_string());
    a.push("minimax_music3".to_string());
    a.push("--model".to_string());
    a.push(paths.model_dir.clone());
    a.push("--backend".to_string());
    if c.backend.as_str().is_empty() {
        a.push(paths.backend.clone());
    } else {
        a.push(c.backend.clone());
    }
    assert(views(a@) =~= seq![
        paths@.bin,
        "--task"@,
        "gen"@,
        "--family"@,
        "minimax_music3"@,
        "--model"@,
        paths@.model_dir,
        "--backend"@,
        run_backend(paths@, c@),
    ]);
    extend(&mut a, &write_pairs("--session-option", "minimax_music3.", &session_pairs(paths, c)));
    let mut text: Vec<String> = Vec::new();
    text.push("--text".to_string());
    text.push(c.caption());
    assert(views(text@) =~= seq!["--text"@, c@.title()]);
    extend(&mut a, &text);
    extend(&mut a, &write_pairs("--request-option", "", &request_pairs(c)));
    let mut tail: Vec<String> = Vec::new();
    tail.push("--out".to_string());
    tail.push(c.out_path(paths.home.as_str()));
    tail.push("--metrics".to_string());
    assert(views(tail@) =~= seq![
        "--out"@,
        expanded(trimmed(c@.out), paths@.home),
        "--metrics"@,
    ]);
    extend(&mut a, &tail);
    assert(views(a@).len() == a@.len());
    a
}

} // verus!
