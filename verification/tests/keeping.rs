use lyra::config::Config;
use lyra::detect::{Disk, Paths};
use lyra::double::{clamp, is_finite, is_less, make, raise, settle, Double, ONE, TWENTY, ZERO};
use lyra::history::{append_history, newest, HistoryEntry};
use lyra::presets::{load_presets, Preset, Presets};
use lyra::runner::{Job, Log, Poll, Status, LOG_LIMIT, LOG_TRIM};

fn paths() -> Paths {
    Paths {
        home: "/home/u".to_string(),
        bin: "/bin/audiocpp_cli".to_string(),
        model_dir: "/m".to_string(),
        backend: "cuda".to_string(),
        language_model: None,
        flow_transformer: None,
        depth_decoder: None,
        disk: Disk {
            bin_exists: true,
            model_is_dir: true,
            names: Vec::new(),
            existing: Vec::new(),
        },
    }
}

fn named(out: &str) -> Config {
    Config::with_out(out.to_string())
}

fn double(v: f64) -> Double {
    make(v.to_bits(), "")
}

fn row(at: u64) -> HistoryEntry {
    HistoryEntry {
        at,
        out: "o".to_string(),
        caption: "c".to_string(),
        success: true,
        wall_ms: double(1.0),
    }
}

#[test]
fn doubles_are_compared_as_in_std() {
    let all = [
        0.0f64,
        -0.0,
        1.0,
        -1.0,
        1.7,
        20.0,
        3600.0,
        f64::MIN_POSITIVE,
        f64::from_bits(1),
        -f64::from_bits(1),
        f64::MAX,
        f64::MIN,
        f64::INFINITY,
        f64::NEG_INFINITY,
        f64::NAN,
        -f64::NAN,
    ];
    for a in all {
        assert_eq!(is_finite(a.to_bits()), a.is_finite());
        let raised = f64::from_bits(raise(double(a), make(ONE, "1")).bits);
        assert_eq!(raised, a.max(1.0));
        let clamped = f64::from_bits(clamp(double(a), make(ZERO, "0"), make(TWENTY, "20")).bits);
        assert!(clamped == a.clamp(0.0, 20.0) || (clamped.is_nan() && a.is_nan()));
        let settled = f64::from_bits(settle(double(a), make(ZERO, "0"), make(TWENTY, "20")).bits);
        let expected = if a.is_finite() { a.clamp(0.0, 20.0) } else { 0.0 };
        assert_eq!(settled, expected);
        for b in all {
            assert_eq!(is_less(a.to_bits(), b.to_bits()), a < b);
        }
    }
    assert_eq!(f64::from_bits(ONE), 1.0);
    assert_eq!(f64::from_bits(TWENTY), 20.0);
    assert_eq!(f64::from_bits(lyra::double::ONE_AND_A_HALF), 1.5);
    assert_eq!(f64::from_bits(lyra::double::ONE_POINT_SEVEN), 1.7);
    assert_eq!(f64::from_bits(lyra::double::THIRTY), 30.0);
    assert_eq!(f64::from_bits(lyra::double::THREE_HUNDRED), 300.0);
    assert_eq!(f64::from_bits(lyra::double::THREE_THOUSAND_SIX_HUNDRED), 3600.0);
}

#[test]
fn presets_are_kept_by_name() {
    let mut p = Presets::new();
    p.insert("b".to_string(), named("1"));
    p.insert("a".to_string(), named("2"));
    p.insert("é".to_string(), named("3"));
    p.insert("b".to_string(), named("4"));
    assert_eq!(p.names(), vec!["a".to_string(), "b".to_string(), "é".to_string()]);
    assert_eq!(p.get("b").map(|c| c.out), Some("4".to_string()));
    assert_eq!(p.get("a").map(|c| c.out), Some("2".to_string()));
    assert!(p.get("c").is_none());
    let q = p.copy();
    p.remove("b");
    p.remove("nope");
    assert_eq!(p.names(), vec!["a".to_string(), "é".to_string()]);
    assert!(p.get("b").is_none());
    assert_eq!(q.names().len(), 3);
}

#[test]
fn presets_from_disk_are_put_in_range() {
    let mut wild = named("x");
    wild.genre = 99;
    wild.num_inference_steps = 0;
    wild.duration_sec = double(1e9);
    let entries = vec![
        Preset { name: "z".to_string(), cfg: named("first") },
        Preset { name: "a".to_string(), cfg: wild },
        Preset { name: "z".to_string(), cfg: named("last") },
    ];
    let p = load_presets(&entries);
    assert_eq!(p.names(), vec!["a".to_string(), "z".to_string()]);
    assert_eq!(p.get("z").map(|c| c.out), Some("last".to_string()));
    let a = p.get("a").unwrap();
    assert_eq!(a.genre, 7);
    assert_eq!(a.num_inference_steps, 1);
    assert_eq!(f64::from_bits(a.duration_sec.bits), 3600.0);
}

#[test]
fn history_holds_the_last_hundred_runs() {
    let mut h: Vec<HistoryEntry> = Vec::new();
    for at in 0..130u64 {
        h = append_history(h, row(at));
        assert!(h.len() <= 100);
    }
    let ats: Vec<u64> = h.iter().map(|e| e.at).collect();
    let expected: Vec<u64> = (30..130).collect();
    assert_eq!(ats, expected);
    let recent: Vec<u64> = newest(&h, 20).iter().map(|e| e.at).collect();
    let latest: Vec<u64> = (110..130).rev().collect();
    assert_eq!(recent, latest);
    assert_eq!(newest(&vec![row(7)], 20).len(), 1);
}

#[test]
fn status_is_told_in_words() {
    assert_eq!(Status::Running.label(), "running");
    assert_eq!(Status::Success.label(), "success");
    assert_eq!(Status::Failed(3).label(), "failed (exit 3)");
    assert_eq!(Status::Failed(-1).label(), "failed (exit -1)");
    assert_eq!(Status::Failed(0).label(), "failed");
    assert_eq!(Status::Aborted.label(), "aborted");
    assert!(Status::Running.is_running() && !Status::Aborted.is_running());
    assert!(Status::Success.is_success() && !Status::Failed(1).is_success());
}

#[test]
fn job_goes_from_start_to_end() {
    let (mut j, argv) = Job::start(7, &paths(), &named("~/x.wav"));
    assert_eq!(j.id, 7);
    assert!(j.running());
    assert_eq!(j.out_path(), "/home/u/x.wav");
    assert_eq!(argv[0], "/bin/audiocpp_cli");
    assert_eq!(argv[argv.len() - 2], "/home/u/x.wav");
    assert!(!j.watch(Poll::Still));
    assert!(j.running());
    assert!(j.watch(Poll::Exit(2)));
    assert_eq!(j.status(), Status::Failed(2));
    j.abort();
    assert_eq!(j.status(), Status::Failed(2));
    let first = j.record(11, double(2.0)).unwrap();
    assert_eq!(first.at, 11);
    assert_eq!(first.out, "~/x.wav");
    assert!(!first.success);
    assert!(first.caption.starts_with("Bright pop rock"));
    assert!(j.record(12, double(3.0)).is_none());
}

#[test]
fn abort_wins_over_a_later_end() {
    for p in [Poll::Success, Poll::Exit(1), Poll::Killed, Poll::Error, Poll::Gone, Poll::Still] {
        let (mut j, _) = Job::start(1, &paths(), &named("x"));
        j.abort();
        j.watch(p);
        assert_eq!(j.status(), Status::Aborted);
    }
    let (mut j, _) = Job::start(1, &paths(), &named("x"));
    assert!(j.watch(Poll::Killed));
    assert_eq!(j.status(), Status::Failed(-1));
    let (mut k, _) = Job::start(1, &paths(), &named("x"));
    assert!(k.watch(Poll::Success));
    assert_eq!(k.status(), Status::Success);
    assert!(k.record(1, double(1.0)).unwrap().success);
}

#[test]
fn log_drops_its_oldest_lines() {
    let mut log = Log::new();
    for i in 0..LOG_LIMIT {
        log.push(format!("{i}"));
    }
    let (next, all) = log.lines_since(0);
    assert_eq!(next as usize, LOG_LIMIT);
    assert_eq!(all.len(), LOG_LIMIT);
    log.push("more".to_string());
    assert_eq!(log.lines.len(), LOG_LIMIT + 1 - LOG_TRIM);
    let (end, fresh) = log.lines_since(next);
    assert_eq!(end, next + 1);
    assert_eq!(fresh, vec!["more".to_string()]);
    assert!(log.lines_since(end).1.is_empty());
    let (_, stale) = log.lines_since(3);
    assert_eq!(stale.len(), LOG_LIMIT + 1 - LOG_TRIM);
    assert_eq!(stale[0], format!("{LOG_TRIM}"));
    assert_eq!(log.lines_since(end + 5).1.len(), LOG_LIMIT + 1 - LOG_TRIM);
}
