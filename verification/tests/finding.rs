use lyra::clock::{default_out, epoch_secs, mix, nanos_of, out_at, random_seed, secs_of};
use lyra::cli::{is_local, parse_args, Options, Outcome, HELP};
use lyra::detect::{
    backend_from_bin, bin_candidates, component_files, detect, detect_bin, detect_model_dir, pick,
    probes, problems, usual_model_dir, Disk, Home, ModelEntry, Paths, DEPTH_DECODERS,
    FLOW_TRANSFORMERS, LANGUAGE_MODELS,
};
use lyra::path::{config_dir, expand_tilde, home, is_under, join_path};

fn strings(list: &[&str]) -> Vec<String> {
    list.iter().map(|s| s.to_string()).collect()
}

fn full_disk() -> Disk {
    Disk { bin_exists: true, model_is_dir: true, names: probes(), existing: probes() }
}

fn found(disk: Disk) -> Paths {
    let home = Home {
        path: "/home/u".to_string(),
        binaries: Vec::new(),
        usual_is_dir: true,
        models: Vec::new(),
    };
    detect(None, None, None, &home, disk)
}

#[test]
fn binary_is_the_first_that_is_there() {
    let all = bin_candidates("/home/u");
    assert_eq!(all.len(), 6);
    assert_eq!(all[0], "/home/u/audio.cpp/build/linux-cuda-release/bin/audiocpp_cli");
    assert_eq!(detect_bin(None, "/home/u", &vec![all[3].clone(), all[1].clone()]), all[1]);
    assert_eq!(detect_bin(None, "/home/u", &Vec::new()), all[0]);
    assert_eq!(detect_bin(Some("/x".to_string()), "/home/u", &all), "/x");
}

#[test]
fn backend_is_inferred_from_the_binary() {
    assert_eq!(backend_from_bin("/b/linux-cuda-release/bin/x"), "cuda");
    assert_eq!(backend_from_bin("/b/macos-metal-release/bin/x"), "metal");
    assert_eq!(backend_from_bin("/b/linux-vulkan-release/bin/x"), "vulkan");
    assert_eq!(backend_from_bin("/b/linux-hip-release/bin/x"), "hip");
    assert_eq!(backend_from_bin("/b/linux-cpu-release/bin/x"), "cpu");
    assert_eq!(backend_from_bin("/opt/x"), "cpu");
}

#[test]
fn model_directory_is_looked_for() {
    let other = ModelEntry {
        name: "MiniMax-Music3-GGUF-q4".to_string(),
        path: "/home/u/models/MiniMax-Music3-GGUF-q4".to_string(),
        is_dir: true,
    };
    let file = ModelEntry {
        name: "MiniMax-Music3.txt".to_string(),
        path: "/home/u/models/MiniMax-Music3.txt".to_string(),
        is_dir: false,
    };
    let entries = vec![file, other];
    let usual = usual_model_dir("/home/u");
    assert_eq!(usual, "/home/u/models/MiniMax-Music3-GGUF");
    assert_eq!(detect_model_dir(None, "/home/u", true, &entries), usual);
    assert_eq!(
        detect_model_dir(None, "/home/u", false, &entries),
        "/home/u/models/MiniMax-Music3-GGUF-q4"
    );
    assert_eq!(detect_model_dir(None, "/home/u", false, &Vec::new()), usual);
    assert_eq!(detect_model_dir(Some("/m".to_string()), "/home/u", true, &entries), "/m");
}

#[test]
fn best_component_on_disk_is_preferred() {
    let p = found(full_disk());
    assert_eq!(p.language_model, Some("language_model_q4_k.gguf".to_string()));
    assert_eq!(p.flow_transformer, Some("transformer_q4_k.gguf".to_string()));
    assert_eq!(p.depth_decoder, Some("rvq_depth_decoder_q8_0.gguf".to_string()));
    assert_eq!(p.backend, "cuda");
    for k in 0..4usize {
        let rest: Vec<String> = LANGUAGE_MODELS[k..].iter().rev().map(|s| s.to_string()).collect();
        assert_eq!(pick(&rest, &LANGUAGE_MODELS), Some(LANGUAGE_MODELS[k].to_string()));
    }
    let order = ["q4_k", "q8_0", "q4_0", "bf16"];
    for k in 0..4usize {
        assert_eq!(LANGUAGE_MODELS[k], format!("language_model_{}.gguf", order[k]));
        assert_eq!(FLOW_TRANSFORMERS[k], format!("transformer_{}.gguf", order[k]));
    }
    let depth = ["q8_0", "q4_k", "bf16"];
    for k in 0..3usize {
        assert_eq!(DEPTH_DECODERS[k], format!("rvq_depth_decoder_{}.gguf", depth[k]));
    }
    assert_eq!(pick(&Vec::new(), &LANGUAGE_MODELS), None);
}

#[test]
fn overrides_win_over_detection() {
    let home = Home {
        path: "/home/u".to_string(),
        binaries: Vec::new(),
        usual_is_dir: false,
        models: Vec::new(),
    };
    let p = detect(
        Some("/opt/metal/cli".to_string()),
        Some("/opt/model".to_string()),
        None,
        &home,
        full_disk(),
    );
    assert_eq!(p.bin, "/opt/metal/cli");
    assert_eq!(p.model_dir, "/opt/model");
    assert_eq!(p.backend, "metal");
    let q = detect(None, None, Some("cpu".to_string()), &home, full_disk());
    assert_eq!(q.backend, "cpu");
}

#[test]
fn component_files_are_ordered_by_quality() {
    let names = strings(
        &[
            "transformer_z_q8_0.gguf",
            "transformer_bf16.gguf",
            "transformer_a.gguf",
            "transformer_a_q8_0.gguf",
            "transformer_q4_k.gguf.part",
            "xtransformer_q4_k.gguf",
            "transformer_q4_0.gguf",
        ],
    );
    assert_eq!(
        component_files(&names, "transformer_"),
        strings(
            &[
                "transformer_a_q8_0.gguf",
                "transformer_z_q8_0.gguf",
                "transformer_q4_0.gguf",
                "transformer_bf16.gguf",
                "transformer_a.gguf",
            ],
        )
    );
}

#[test]
fn problems_name_what_is_missing() {
    assert!(problems(&found(full_disk())).is_empty());
    let nothing = Disk {
        bin_exists: false,
        model_is_dir: false,
        names: Vec::new(),
        existing: Vec::new(),
    };
    let p = found(nothing);
    assert_eq!(
        problems(&p),
        vec![
            format!("audiocpp_cli not found at {}", p.bin),
            format!("model dir missing: {}", p.model_dir),
        ]
    );
    let empty = Disk {
        bin_exists: true,
        model_is_dir: true,
        names: Vec::new(),
        existing: Vec::new(),
    };
    assert_eq!(
        problems(&found(empty)),
        strings(
            &[
                "no language model GGUF in model dir",
                "no flow transformer GGUF in model dir",
                "no depth decoder GGUF in model dir",
                "missing condition_encoder.gguf",
                "missing vocoder.gguf",
                "missing config.json",
            ],
        )
    );
}

#[test]
fn tilde_stands_for_home() {
    assert_eq!(expand_tilde("~/a/b.wav", "/home/u"), "/home/u/a/b.wav");
    assert_eq!(expand_tilde("~", "/home/u"), "/home/u");
    assert_eq!(expand_tilde("~x/a", "/home/u"), "~x/a");
    assert_eq!(expand_tilde("/a", "/home/u"), "/a");
    assert_eq!(expand_tilde("~//a", "/home/u"), "/a");
    assert_eq!(home(Some("/h".to_string())), "/h");
    assert_eq!(home(None), ".");
}

#[test]
fn paths_are_joined_as_in_std() {
    for base in ["", "/", "/a", "/a/", "a", "."] {
        for rest in ["", "x", "/x", "x/y"] {
            let joined = std::path::Path::new(base).join(rest);
            assert_eq!(join_path(base, rest), joined.to_string_lossy());
        }
    }
    assert_eq!(config_dir(None, "/home/u"), "/home/u/.config/lyra");
    assert_eq!(config_dir(Some("/cfg".to_string()), "/home/u"), "/cfg/lyra");
}

#[test]
fn only_what_stays_at_home_is_under_it() {
    assert!(is_under("/home/u/a.wav", "/home/u"));
    assert!(is_under("/home/u/./b//a.wav", "/home/u/"));
    assert!(is_under("/home/u/b/../a.wav", "/home/u"));
    assert!(is_under("/home/u", "/home/u"));
    assert!(is_under("/home/u/../u/a.wav", "/home/u"));
    assert!(is_under("/home/u/b/../../../home/u/a.wav", "/home/u"));
    assert!(is_under("/home/u/../../../../home/u/a.wav", "/home/u"));
    assert!(!is_under("/etc/../home/u/a.wav", "/home/u"));
    assert!(!is_under("/home/u/../u/..", "/home/u"));
    assert!(is_under("./a/../b.wav", "."));
    assert!(!is_under("./../b.wav", "."));
    assert!(is_under("../a/../b.wav", ".."));
    assert!(!is_under("../../b.wav", ".."));
    assert!(is_under("/etc/a.wav", ""));
    assert!(is_under("a.wav", ""));
    assert!(is_under("../a.wav", ""));
    assert!(!is_under("/home/u/../v/a.wav", "/home/u"));
    assert!(!is_under("/home/u/b/../../v/a.wav", "/home/u"));
    assert!(!is_under("/home/user/a.wav", "/home/u"));
    assert!(!is_under("home/u/a.wav", "/home/u"));
    assert!(!is_under("/etc/a.wav", "/home/u"));
    for p in ["/home/u/a", "/home/u", "/home/ux", "/home", "/", "home/u/a", "/home//u/./a"] {
        for d in ["/home/u", "/home", "/", "home", "/home/u/a/b", "", "."] {
            let std_says = std::path::Path::new(p).starts_with(d);
            assert_eq!(is_under(p, d), std_says, "{p} {d}");
        }
    }
}

fn run(args: &[&str]) -> Options {
    match parse_args(&strings(args)) {
        Outcome::Run(o) => o,
        _ => panic!("not a run"),
    }
}

#[test]
fn options_have_defaults() {
    let o = run(&[]);
    assert!(!o.web && !o.dry_run && !o.print_config);
    assert_eq!(o.host, "127.0.0.1");
    assert_eq!(o.port, 8282);
    assert!(o.bin.is_none() && o.model.is_none() && o.backend.is_none());
}

#[test]
fn options_take_values() {
    let o = run(
        &[
            "web",
            "--host",
            "0.0.0.0",
            "--port=9000",
            "--bin=/a=b",
            "--model",
            "/m",
            "--backend",
            "hip",
            "--dry-run",
            "--print-config",
        ],
    );
    assert!(o.web && o.dry_run && o.print_config);
    assert_eq!(o.host, "0.0.0.0");
    assert_eq!(o.port, 9000);
    assert_eq!(o.bin, Some("/a=b".to_string()));
    assert_eq!(o.model, Some("/m".to_string()));
    assert_eq!(o.backend, Some("hip".to_string()));
    assert!(!run(&["web", "tui"]).web);
    assert!(run(&["--bin=/x", "--bin"]).bin.is_none());
    assert_eq!(run(&["--host"]).host, "127.0.0.1");
}

#[test]
fn other_outcomes_of_the_command_line() {
    assert!(matches!(parse_args(&strings(&["-V", "--nope"])), Outcome::Version));
    assert!(matches!(parse_args(&strings(&["--version"])), Outcome::Version));
    assert!(matches!(parse_args(&strings(&["web", "--help"])), Outcome::Help));
    assert!(matches!(parse_args(&strings(&["-h"])), Outcome::Help));
    assert!(matches!(parse_args(&strings(&["--port"])), Outcome::BadPort));
    assert!(matches!(parse_args(&strings(&["--port", "65536"])), Outcome::BadPort));
    assert!(matches!(parse_args(&strings(&["--port=x"])), Outcome::BadPort));
    match parse_args(&strings(&["--wat=1"])) {
        Outcome::Unknown(s) => assert_eq!(s, "--wat"),
        _ => panic!("known"),
    }
    assert!(HELP.starts_with("Lyra — interactive"));
    assert!(is_local("127.0.0.1") && is_local("localhost") && is_local("::1"));
    assert!(!is_local("0.0.0.0"));
}

#[test]
fn output_is_named_after_the_time() {
    assert_eq!(out_at(0), "~/Music/lyra-0.wav");
    assert_eq!(out_at(1700000000), "~/Music/lyra-1700000000.wav");
    let now = std::time::SystemTime::now()
        .duration_since(std::time::UNIX_EPOCH)
        .map(|d| d.as_secs())
        .unwrap_or(0);
    assert!(epoch_secs() >= now && epoch_secs() <= now + 5);
    assert!(default_out().starts_with("~/Music/lyra-1"));
}

#[test]
fn readings_of_the_clock_are_counted() {
    assert_eq!(secs_of(Some((1_700_000_000, 999_999_999))), 1_700_000_000);
    assert_eq!(secs_of(None), 0);
    assert_eq!(nanos_of(Some((1_700_000_000, 5))), 1_700_000_000_000_000_005);
    assert_eq!(nanos_of(None), 0);
    for t in [(u64::MAX, 999_999_999u32), (18_446_744_073, 709_551_616), (20_000_000_000, 1)] {
        let d = std::time::Duration::new(t.0, t.1);
        assert_eq!(nanos_of(Some(t)), d.as_nanos() as u64);
        assert_eq!(secs_of(Some(t)), d.as_secs());
    }
}

#[test]
fn seeds_are_mixed() {
    let mut x: u64 = 5 ^ 0x9e37_79b9_7f4a_7c15;
    x ^= x << 13;
    x ^= x >> 7;
    x ^= x << 17;
    assert_eq!(mix(5), x);
    assert_ne!(mix(6), mix(5));
    let a = random_seed();
    let mut b = random_seed();
    for _ in 0..1000 {
        if b != a {
            break;
        }
        b = random_seed();
    }
    assert_ne!(a, b);
}
