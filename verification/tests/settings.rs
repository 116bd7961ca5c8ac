use lyra::argv::build_argv;
use lyra::config::{Config, DEFAULT_LYRICS, GENRES, MOODS, VOCALS};
use lyra::detect::{Disk, Paths, BACKENDS};
use lyra::double::Double;
use lyra::edit::{
    adjust, cycle, get_amount, options, select_index, set_select, set_text, toggle, value_string,
};
use lyra::field::{Field, Kind, ALL_FIELDS};
use lyra::shell::shell_join;

fn paths() -> Paths {
    Paths {
        home: "/home/user".to_string(),
        bin: "/nonexistent/audiocpp_cli".to_string(),
        model_dir: "/nonexistent/model".to_string(),
        backend: "cuda".to_string(),
        language_model: Some("language_model_q4_k.gguf".to_string()),
        flow_transformer: Some("transformer_q4_k.gguf".to_string()),
        depth_decoder: Some("rvq_depth_decoder_q8_0.gguf".to_string()),
        disk: Disk {
            bin_exists: false,
            model_is_dir: false,
            names: Vec::new(),
            existing: Vec::new(),
        },
    }
}

fn ready_paths() -> Paths {
    let mut p = paths();
    p.disk.bin_exists = true;
    p.disk.model_is_dir = true;
    for n in lyra::detect::probes() {
        p.disk.existing.push(n.clone());
        p.disk.names.push(n);
    }
    p
}

fn shown(v: f64) -> String {
    if v.fract().abs() < f64::EPSILON {
        format!("{}", v as i64)
    } else {
        format!("{v}")
    }
}

fn double(v: f64) -> Double {
    Double { bits: v.to_bits(), text: shown(v) }
}

fn number(s: &str) -> Option<Double> {
    match s.trim().parse::<f64>() {
        Ok(v) => Some(double(v)),
        Err(_) => None,
    }
}

fn value(d: &Double) -> f64 {
    f64::from_bits(d.bits)
}

fn strings(list: &[&str]) -> Vec<String> {
    list.iter().map(|s| s.to_string()).collect()
}

#[test]
fn sanitize_clamps_out_of_range() {
    let mut c = Config {
        genre: 999,
        mood: 999,
        vocals: 999,
        duration_sec: double(-5.0),
        num_inference_steps: 0,
        top_k: 0,
        ensemble_takes: 99,
        graph_context_mb: 1,
        backend: "bogus".to_string(),
        ..Config::default()
    };
    c.sanitize();
    assert!(c.genre < GENRES.len());
    assert!(c.mood < MOODS.len());
    assert!(c.vocals < VOCALS.len());
    assert_eq!(value(&c.duration_sec), 1.0);
    assert_eq!(c.num_inference_steps, 1);
    assert_eq!(c.top_k, 1);
    assert_eq!(c.ensemble_takes, 16);
    assert_eq!(c.graph_context_mb, 8);
    assert!(c.backend.is_empty());
    let _ = c.caption();
    let _ = c.warnings(&paths());
}

#[test]
fn set_text_clamps_numeric_values() {
    let mut c = Config::default();
    set_text(&mut c, Field::Steps, "100000", number("100000"));
    assert_eq!(c.num_inference_steps, 500);
    set_text(&mut c, Field::Guidance, "-3", number("-3"));
    assert_eq!(value(&c.guidance_scale), 0.0);
    set_text(&mut c, Field::Duration, "not-a-number", number("not-a-number"));
    assert_eq!(value(&c.duration_sec), 30.0);
}

#[test]
fn backend_cycle_round_trips_through_auto() {
    let p = paths();
    let mut c = Config::default();
    assert_eq!(select_index(&c, &p, Field::Backend), 0);
    cycle(&mut c, &p, Field::Backend, 1);
    assert_eq!(c.backend, BACKENDS[0]);
    assert_eq!(select_index(&c, &p, Field::Backend), 1);
    for _ in 0..BACKENDS.len() {
        cycle(&mut c, &p, Field::Backend, 1);
    }
    assert!(c.backend.is_empty());
}

#[test]
fn argv_has_core_flags_and_components() {
    let p = paths();
    let c = Config::default();
    let argv = build_argv(&p, &c);
    assert!(argv.contains(&"--task".to_string()));
    assert!(argv.contains(&"minimax_music3".to_string()));
    assert!(argv.iter().any(|a| a.contains("language_model_gguf")));
    assert!(argv.iter().any(|a| a == "--metrics"));
    let joined = argv.join(" ");
    assert!(joined.contains("--request-option duration_sec=30"));
}

#[test]
fn whole_command_of_the_defaults() {
    let p = paths();
    let c = Config::with_out("~/Music/a song.wav".to_string());
    let argv = build_argv(&p, &c);
    let caption = c.caption();
    let lyrics = format!("lyrics={}", DEFAULT_LYRICS);
    let expected = strings(
        &[
            "/nonexistent/audiocpp_cli",
            "--task",
            "gen",
            "--family",
            "minimax_music3",
            "--model",
            "/nonexistent/model",
            "--backend",
            "cuda",
            "--session-option",
            "minimax_music3.language_model_gguf=language_model_q4_k.gguf",
            "--session-option",
            "minimax_music3.rvq_depth_decoder_gguf=rvq_depth_decoder_q8_0.gguf",
            "--session-option",
            "minimax_music3.flow_transformer_gguf=transformer_q4_k.gguf",
            "--session-option",
            "minimax_music3.mem_saver=true",
            "--session-option",
            "minimax_music3.pipeline_overlap=false",
            "--session-option",
            "minimax_music3.graph_context_mb=32",
            "--session-option",
            "minimax_music3.weight_context_mb=32",
            "--text",
            caption.as_str(),
            "--request-option",
            lyrics.as_str(),
            "--request-option",
            "duration_sec=30",
            "--request-option",
            "num_inference_steps=30",
            "--request-option",
            "guidance_scale=1.7",
            "--request-option",
            "ar_guidance_scale=1.5",
            "--request-option",
            "top_k=50",
            "--request-option",
            "seed=0",
            "--request-option",
            "flow_uncond_interval=1",
            "--request-option",
            "flow_uncond_warmup=2",
            "--request-option",
            "flow_chunk_hop_frames=0",
            "--request-option",
            "ensemble_takes=1",
            "--request-option",
            "ensemble_prefix_frames=0",
            "--out",
            "/home/user/Music/a song.wav",
            "--metrics",
        ],
    );
    assert_eq!(argv, expected);
    let line = shell_join(&argv);
    assert!(line.contains("'/home/user/Music/a song.wav'"));
    assert!(line.ends_with(" --metrics"));
}

#[test]
fn backend_and_components_of_the_settings_win() {
    let p = paths();
    let mut c = Config::default();
    c.backend = "vulkan".to_string();
    c.lm_gguf = "language_model_bf16.gguf".to_string();
    let argv = build_argv(&p, &c);
    assert_eq!(argv[8], "vulkan");
    assert_eq!(argv[10], "minimax_music3.language_model_gguf=language_model_bf16.gguf");
}

#[test]
fn default_settings_are_those_of_the_table() {
    let c = Config::default();
    assert_eq!(value_string(&c, Field::Duration), "30");
    assert_eq!(value_string(&c, Field::Steps), "30");
    assert_eq!(value_string(&c, Field::Guidance), "1.7");
    assert_eq!(value_string(&c, Field::ArGuidance), "1.5");
    assert_eq!(value_string(&c, Field::TopK), "50");
    assert_eq!(value_string(&c, Field::Seed), "0");
    assert_eq!(value_string(&c, Field::FlowInterval), "1");
    assert_eq!(value_string(&c, Field::FlowWarmup), "2");
    assert_eq!(value_string(&c, Field::FlowHop), "0");
    assert_eq!(value_string(&c, Field::EnsembleTakes), "1");
    assert_eq!(value_string(&c, Field::EnsemblePrefix), "0");
    assert_eq!(value_string(&c, Field::MemSaver), "true");
    assert_eq!(value_string(&c, Field::PipelineOverlap), "false");
    assert_eq!(value_string(&c, Field::GraphCtx), "32");
    assert_eq!(value_string(&c, Field::WeightCtx), "32");
    assert_eq!(value_string(&c, Field::Backend), "(auto)");
    assert_eq!(value_string(&c, Field::Mood), "uplifting");
    assert_eq!(value_string(&c, Field::Vocals), "a clear female vocal");
    assert_eq!(value(&c.duration_sec), 30.0);
    assert_eq!(value(&c.guidance_scale), 1.7);
    assert_eq!(value(&c.ar_guidance_scale), 1.5);
    assert!(c.out.starts_with("~/Music/lyra-"));
    assert!(c.out.ends_with(".wav"));
}

#[test]
fn caption_is_composed_or_replaced() {
    let mut c = Config::with_out("x.wav".to_string());
    let caption = c.caption();
    assert!(caption.starts_with("Bright pop rock"));
    assert!(caption.contains(" — uplifting mood, a clear female vocal, "));
    assert!(caption.ends_with("polished studio production."));
    c.vocals = 3;
    assert!(c.caption().ends_with(" Focus on the melody and arrangement."));
    set_text(&mut c, Field::Genre, "  ärgerlicher Punk ", None);
    assert_eq!(c.genre, 7);
    assert!(c.caption().starts_with("Ärgerlicher Punk — "));
    c.genre_custom = " ".to_string();
    assert!(c.caption().starts_with("An original song — "));
    c.caption_override = "  my own  ".to_string();
    assert_eq!(c.caption(), "my own");
    c.mood = 5;
    assert_eq!(c.caption(), "my own");
}

#[test]
fn lyrics_of_an_instrumental_say_so() {
    let mut c = Config::default();
    c.lyrics = "  \n".to_string();
    assert_eq!(c.lyrics_text(), DEFAULT_LYRICS);
    c.lyrics = " la la ".to_string();
    assert_eq!(c.lyrics_text(), "la la");
    c.vocals = 3;
    assert_eq!(c.lyrics_text(), "[instrumental]\nla la");
    c.lyrics = "Purely INSTRUMENTAL, é".to_string();
    assert_eq!(c.lyrics_text(), "Purely INSTRUMENTAL, é");
    c.lyrics = "".to_string();
    assert_eq!(c.lyrics_text(), "[instrumental]\n");
}

#[test]
fn sanitizing_twice_is_sanitizing_once() {
    let mut c = Config {
        duration_sec: double(f64::NAN),
        guidance_scale: double(f64::INFINITY),
        ar_guidance_scale: double(99.5),
        num_inference_steps: 501,
        flow_uncond_interval: 0,
        flow_uncond_warmup: 21,
        weight_context_mb: 5000,
        backend: "metal".to_string(),
        ..Config::default()
    };
    c.sanitize();
    assert_eq!(value(&c.duration_sec), 1.0);
    assert_eq!(value(&c.guidance_scale), 0.0);
    assert_eq!(value(&c.ar_guidance_scale), 20.0);
    assert_eq!(c.num_inference_steps, 500);
    assert_eq!(c.flow_uncond_interval, 1);
    assert_eq!(c.flow_uncond_warmup, 20);
    assert_eq!(c.weight_context_mb, 4096);
    assert_eq!(c.backend, "metal");
    let mut d = c.clone();
    d.sanitize();
    for f in ALL_FIELDS {
        assert_eq!(value_string(&c, f), value_string(&d, f));
    }
}

#[test]
fn adjusting_stays_in_range() {
    let p = paths();
    let mut c = Config::default();
    c.num_inference_steps = 500;
    adjust(&mut c, &p, Field::Steps, 1, None);
    assert_eq!(c.num_inference_steps, 500);
    adjust(&mut c, &p, Field::Steps, -1, None);
    assert_eq!(c.num_inference_steps, 499);
    adjust(&mut c, &p, Field::FlowHop, 1, None);
    assert_eq!(c.flow_chunk_hop_frames, 25);
    adjust(&mut c, &p, Field::FlowHop, -2, None);
    assert_eq!(c.flow_chunk_hop_frames, 0);
    adjust(&mut c, &p, Field::GraphCtx, 2, None);
    assert_eq!(c.graph_context_mb, 48);
    adjust(&mut c, &p, Field::Seed, -1, None);
    assert_eq!(c.seed, 0);
    c.seed = u64::MAX;
    adjust(&mut c, &p, Field::Seed, 1, None);
    assert_eq!(c.seed, 0);
    let d = value(&get_amount(&c, Field::Duration)) + 5.0;
    adjust(&mut c, &p, Field::Duration, 1, Some(double(d)));
    assert_eq!(value(&c.duration_sec), 35.0);
    assert_eq!(value_string(&c, Field::Duration), "35");
    adjust(&mut c, &p, Field::Duration, -9, Some(double(-10.0)));
    assert_eq!(value(&c.duration_sec), 1.0);
    adjust(&mut c, &p, Field::Guidance, 1, Some(double(21.0)));
    assert_eq!(value(&c.guidance_scale), 20.0);
    adjust(&mut c, &p, Field::Guidance, 1, None);
    assert_eq!(value(&c.guidance_scale), 20.0);
    adjust(&mut c, &p, Field::Duration, 1, Some(double(3605.0)));
    assert_eq!(value(&c.duration_sec), 3605.0);
}

#[test]
fn switches_never_clash() {
    let mut c = Config::default();
    toggle(&mut c, Field::PipelineOverlap);
    assert!(!c.pipeline_overlap);
    toggle(&mut c, Field::MemSaver);
    assert!(!c.mem_saver);
    toggle(&mut c, Field::PipelineOverlap);
    assert!(c.pipeline_overlap);
    toggle(&mut c, Field::MemSaver);
    assert!(c.mem_saver && !c.pipeline_overlap);
    toggle(&mut c, Field::Steps);
    assert!(c.mem_saver && !c.pipeline_overlap);
}

#[test]
fn choices_go_around_in_both_directions() {
    let mut p = paths();
    p.disk.names = strings(
        &[
            "language_model_q8_0.gguf",
            "transformer_q4_k.gguf",
            "language_model_q4_k.gguf",
            "readme.md",
            "language_model_odd.gguf",
            "language_model_bf16.gguf",
            "language_model_q4_0.gguf",
        ],
    );
    let all = strings(
        &[
            "language_model_q4_k.gguf",
            "language_model_q8_0.gguf",
            "language_model_q4_0.gguf",
            "language_model_bf16.gguf",
            "language_model_odd.gguf",
        ],
    );
    assert_eq!(options(&p, Field::Lm), all);
    assert_eq!(options(&p, Field::Flow), strings(&["transformer_q4_k.gguf"]));
    assert!(options(&p, Field::Depth).is_empty());
    assert!(options(&p, Field::Steps).is_empty());
    let mut c = Config::default();
    cycle(&mut c, &p, Field::Lm, -1);
    assert_eq!(c.lm_gguf, "language_model_odd.gguf");
    cycle(&mut c, &p, Field::Lm, 1);
    assert_eq!(c.lm_gguf, "");
    cycle(&mut c, &p, Field::Genre, -1);
    assert_eq!(c.genre, 7);
    cycle(&mut c, &p, Field::Genre, 3);
    assert_eq!(c.genre, 2);
    cycle(&mut c, &p, Field::Genre, -3);
    assert_eq!(c.genre, 7);
    p.disk.names.push("readme.md".to_string());
    for i in 0..6usize {
        set_select(&mut c, &p, Field::Lm, i);
        assert_eq!(select_index(&c, &p, Field::Lm), i);
    }
    set_select(&mut c, &p, Field::Lm, 6);
    assert_eq!(select_index(&c, &p, Field::Lm), 0);
    set_select(&mut c, &p, Field::Mood, 100);
    assert_eq!(c.mood, MOODS.len() - 1);
}

#[test]
fn shown_values_read_back() {
    let c = Config {
        seed: u64::MAX,
        top_k: 77,
        flow_chunk_hop_frames: 150,
        lyrics: "[verse] x\n y".to_string(),
        caption_override: " c ".to_string(),
        ..Config::default()
    };
    for f in ALL_FIELDS {
        if f.kind() != Kind::Select {
            let mut d = c.clone();
            let s = value_string(&c, f);
            set_text(&mut d, f, s.as_str(), number(s.as_str()));
            for g in ALL_FIELDS {
                assert_eq!(value_string(&c, g), value_string(&d, g));
            }
            assert_eq!(c.duration_sec.bits, d.duration_sec.bits);
            assert_eq!(c.guidance_scale.bits, d.guidance_scale.bits);
            assert_eq!(c.ar_guidance_scale.bits, d.ar_guidance_scale.bits);
        }
    }
}

#[test]
fn typed_numbers_are_read_or_left() {
    let mut c = Config::default();
    set_text(&mut c, Field::Seed, " +42 ", None);
    assert_eq!(c.seed, 42);
    set_text(&mut c, Field::Seed, "-1", None);
    assert_eq!(c.seed, 42);
    set_text(&mut c, Field::Seed, "18446744073709551616", None);
    assert_eq!(c.seed, 42);
    set_text(&mut c, Field::TopK, "-7", None);
    assert_eq!(c.top_k, 1);
    set_text(&mut c, Field::EnsemblePrefix, "4294967295", None);
    assert_eq!(c.ensemble_prefix_frames, u32::MAX);
    set_text(&mut c, Field::EnsemblePrefix, "4294967296", None);
    assert_eq!(c.ensemble_prefix_frames, u32::MAX);
    set_text(&mut c, Field::WeightCtx, "9223372036854775808", None);
    assert_eq!(c.weight_context_mb, 32);
    set_text(&mut c, Field::Duration, " 12.5 ", number(" 12.5 "));
    assert_eq!(value(&c.duration_sec), 12.5);
    assert_eq!(value_string(&c, Field::Duration), "12.5");
    set_text(&mut c, Field::Duration, "inf", number("inf"));
    assert_eq!(value(&c.duration_sec), 1.0);
    set_text(&mut c, Field::Duration, "1e9", number("1e9"));
    assert_eq!(value(&c.duration_sec), 3600.0);
    assert_eq!(value_string(&c, Field::Duration), "3600");
    set_text(&mut c, Field::Backend, "cuda", None);
    assert_eq!(c.backend, "");
}

#[test]
fn errors_name_what_makes_a_run_impossible() {
    let mut c = Config::with_out("/x/y.wav".to_string());
    assert!(c.errors(&ready_paths()).is_empty());
    assert!(c.warnings(&ready_paths()).is_empty());
    c.duration_sec = double(0.5);
    c.num_inference_steps = 0;
    c.out = " ".to_string();
    assert_eq!(
        c.errors(&ready_paths()),
        strings(
            &["duration must be at least 1 second", "steps must be >= 1", "output path is empty"],
        )
    );
    c.duration_sec = double(f64::NAN);
    assert_eq!(c.errors(&ready_paths())[0], "duration must be at least 1 second");
    let mut d = Config::with_out("o".to_string());
    d.pipeline_overlap = true;
    d.vocals = 3;
    d.lyrics = "".to_string();
    d.duration_sec = double(300.5);
    assert_eq!(
        d.warnings(&ready_paths()),
        strings(
            &[
                "pipeline_overlap has no effect while mem_saver is on",
                "instrumental selected — lyrics will be replaced with [instrumental]",
                "very long duration — generation may take a long time",
            ],
        )
    );
    assert!(Config::with_out("o".to_string()).errors(&paths()).len() > 0);
}

#[test]
fn fields_are_found_by_their_ids() {
    for f in ALL_FIELDS {
        assert_eq!(Field::from_id(f.id()), Some(f));
        assert!(!f.label().is_empty());
        assert!(!f.help().is_empty());
    }
    assert_eq!(Field::from_id("nope"), None);
    assert_eq!(Field::from_id("seed"), Some(Field::Seed));
    assert_eq!(Field::Genre.kind().as_str(), "select");
    assert_eq!(Field::Lyrics.kind().as_str(), "multiline");
    assert_eq!(Field::Genre.group().as_str(), "song");
    assert_eq!(Field::Seed.group().as_str(), "advanced");
    assert_eq!(Field::Depth.group().as_str(), "components");
}
