use lyra::config::Config;
use lyra::detect::{probes, Disk, Paths};
use lyra::field::{Field, ALL_FIELDS};
use lyra::history::HistoryEntry;
use lyra::presets::Presets;
use lyra::runner::{Job, Poll, Status};
use lyra::sse::{Next, Scene, SseStream};
use lyra::url::{is_decodable, percent_decode, query_param};
use lyra::web::{
    ask_delete, ask_download, ask_field, ask_generate, ask_load, ask_log, ask_save, ask_select,
    fail_launch, handle, is_legible, route, state_value, status_of, Method, Reply, Request, Route,
};

fn paths() -> Paths {
    Paths {
        home: "/home/u".to_string(),
        bin: "/bin/audiocpp_cli".to_string(),
        model_dir: "/m".to_string(),
        backend: "cuda".to_string(),
        language_model: None,
        flow_transformer: None,
        depth_decoder: None,
        disk: Disk { bin_exists: true, model_is_dir: true, names: probes(), existing: probes() },
    }
}

fn get(url: &str) -> Request {
    Request { method: Method::Get, url: url.to_string(), body: String::new() }
}

fn post(url: &str, body: &str) -> Request {
    Request { method: Method::Post, url: url.to_string(), body: body.to_string() }
}

fn ask(c: &mut Config, req: Request) -> Reply {
    assert!(is_legible(&req));
    handle(c, &paths(), None, &Presets::new(), &req, 77)
}

fn failure(r: Reply) -> (u16, String) {
    match r {
        Reply::Failure(code, s) => (code, s),
        _ => panic!("no failure"),
    }
}

#[test]
fn parameters_are_found_in_a_query() {
    assert_eq!(query_param("a=1&b=2&a=3", "a"), Some("1".to_string()));
    assert_eq!(query_param("a=1&b=2=3", "b"), Some("2=3".to_string()));
    assert_eq!(query_param("a&a=", "a"), Some("".to_string()));
    assert_eq!(query_param("ab=1", "a"), None);
    assert_eq!(query_param("", "a"), None);
}

#[test]
fn percent_signs_are_decoded() {
    assert_eq!(percent_decode("a%20b+c"), "a b c");
    assert_eq!(percent_decode("%2Fhome%2fu%2F%C3%A9.wav"), "/home/u/é.wav");
    assert_eq!(percent_decode("100%"), "100%");
    assert_eq!(percent_decode("%4"), "%4");
    assert_eq!(percent_decode("%zz%41"), "%zzA");
    assert_eq!(percent_decode("%+7"), "\u{7}");
    assert_eq!(percent_decode("%ff"), "\u{fffd}");
    assert_eq!(percent_decode("é%é"), "é%é");
    assert!(is_decodable("é%41é"));
    assert!(!is_decodable("%aé"));
    assert!(!is_decodable("%%€x"));
}

#[test]
fn requests_are_routed() {
    assert!(route(Method::Get, "/") == Route::Page);
    assert!(route(Method::Get, "/index.html") == Route::Page);
    assert!(route(Method::Get, "/api/health") == Route::Health);
    assert!(route(Method::Get, "/api/state") == Route::State);
    assert!(route(Method::Get, "/api/log") == Route::Log);
    assert!(route(Method::Get, "/api/events") == Route::Events);
    assert!(route(Method::Get, "/api/download") == Route::Download);
    assert!(route(Method::Post, "/api/field") == Route::Field);
    assert!(route(Method::Post, "/api/select") == Route::Select);
    assert!(route(Method::Post, "/api/generate") == Route::Generate);
    assert!(route(Method::Post, "/api/abort") == Route::Abort);
    assert!(route(Method::Post, "/api/reset") == Route::Reset);
    assert!(route(Method::Post, "/api/presets/save") == Route::Save);
    assert!(route(Method::Post, "/api/presets/load") == Route::Load);
    assert!(route(Method::Post, "/api/presets/delete") == Route::Delete);
    assert!(route(Method::Get, "/api/field") == Route::Unknown);
    assert!(route(Method::Post, "/") == Route::Unknown);
    assert!(route(Method::Options, "/x") == Route::Preflight);
    assert!(route(Method::Other, "/") == Route::Unknown);
}

#[test]
fn simple_requests_are_answered() {
    let mut c = Config::default();
    assert!(matches!(ask(&mut c, get("/?x=1")), Reply::Page));
    assert!(matches!(ask(&mut c, get("/api/health")), Reply::Health));
    assert!(matches!(ask(&mut c, get("/api/state")), Reply::State));
    assert!(matches!(ask(&mut c, get("/nope")), Reply::NotFound));
    assert!(matches!(ask(&mut c, post("/api/abort", "")), Reply::State));
    assert_eq!(failure(ask(&mut c, get("/api/events"))), (200, "no job".to_string()));
    let pre = Request { method: Method::Options, url: "/x".to_string(), body: String::new() };
    assert!(matches!(ask(&mut c, pre), Reply::Empty));
}

#[test]
fn fields_are_changed_by_requests() {
    let mut c = Config::default();
    ask(&mut c, post("/api/field", "{\"id\":\"mood\",\"action\":\"cycle+\"}"));
    assert_eq!(c.mood, 1);
    ask(&mut c, post("/api/field", "{\"id\":\"mood\",\"action\":\"cycle-\"}"));
    assert_eq!(c.mood, 0);
    ask(&mut c, post("/api/field", "{\"id\":\"mem_saver\",\"action\":\"toggle\"}"));
    assert!(!c.mem_saver);
    ask(&mut c, post("/api/field", "{\"id\":\"seed\",\"action\":\"reroll\"}"));
    assert_eq!(c.seed, 77);
    ask(&mut c, post("/api/field", "{\"id\":\"lyrics\",\"action\":\"set\",\"value\":\"l\\u00e9\\n\"}"));
    assert_eq!(c.lyrics, "lé\n");
    ask(&mut c, post("/api/field", "{\"id\":\"top_k\",\"action\":\"set\",\"value\":\"9999\"}"));
    assert_eq!(c.top_k, 2000);
    ask(&mut c, post("/api/field", "{\"id\":\"top_k\",\"action\":\"set\",\"value\":5}"));
    assert_eq!(c.top_k, 2000);
    ask(&mut c, post("/api/field", "{\"id\":\"top_k\",\"action\":\"what\"}"));
    ask(&mut c, post("/api/field", "{\"id\":\"nope\",\"action\":\"toggle\"}"));
    ask(&mut c, post("/api/field", "no json"));
    assert_eq!(c.top_k, 2000);
    match ask(&mut c, post("/api/field", "{\"id\":\"duration_sec\",\"action\":\"cycle-\"}")) {
        Reply::Adjust(f, d) => assert!(f == Field::Duration && d == -1),
        _ => panic!("no adjustment"),
    }
    match ask(
        &mut c,
        post("/api/field", "{\"id\":\"guidance_scale\",\"action\":\"set\",\"value\":\"2.5\"}"),
    ) {
        Reply::SetNumber(f, s) => assert!(f == Field::Guidance && s == "2.5"),
        _ => panic!("no number"),
    }
}

#[test]
fn choices_are_made_by_requests() {
    let mut c = Config::default();
    ask(&mut c, post("/api/select", "{\"id\":\"backend\",\"index\":2}"));
    assert_eq!(c.backend, "metal");
    ask(&mut c, post("/api/select", "{\"id\":\"backend\"}"));
    assert_eq!(c.backend, "");
    ask(&mut c, post("/api/select", "{\"id\":\"backend\",\"index\":1}"));
    ask(&mut c, post("/api/select", "{\"id\":\"backend\",\"index\":-1}"));
    assert_eq!(c.backend, "");
    ask(&mut c, post("/api/select", "{\"id\":\"vocals\",\"index\":-1}"));
    assert_eq!(c.vocals, 3);
    ask(&mut c, post("/api/select", "{\"id\":\"vocals\",\"index\":1.5}"));
    assert_eq!(c.vocals, 0);
    ask_select(&mut c, &paths(), "language_model_gguf", i64::MAX);
    assert_eq!(c.lm_gguf, "");
}

#[test]
fn generating_is_refused_or_started() {
    let c = Config::default();
    assert!(matches!(ask_generate(&c, &paths(), None), Reply::Launch));
    assert!(matches!(ask_generate(&c, &paths(), Some(Status::Failed(1))), Reply::Launch));
    assert_eq!(
        failure(ask_generate(&c, &paths(), Some(Status::Running))),
        (409, "already running".to_string())
    );
    let mut p = paths();
    p.disk.bin_exists = false;
    match ask_generate(&c, &p, None) {
        Reply::Refused(v) => assert_eq!(v, vec![format!("audiocpp_cli not found at {}", p.bin)]),
        _ => panic!("not refused"),
    }
    assert_eq!(failure(fail_launch("gone")), (500, "launch failed: gone".to_string()));
}

#[test]
fn generate_route_sees_the_job() {
    let mut c = Config::default();
    let (mut job, _) = Job::start(1, &paths(), &c);
    let req = post("/api/generate", "{}");
    let r = handle(&mut c, &paths(), Some(&job), &Presets::new(), &req, 0);
    assert_eq!(failure(r).0, 409);
    job.watch(Poll::Success);
    let r = handle(&mut c, &paths(), Some(&job), &Presets::new(), &req, 0);
    assert!(matches!(r, Reply::Launch));
    let r = handle(&mut c, &paths(), Some(&job), &Presets::new(), &post("/api/abort", ""), 0);
    assert!(matches!(r, Reply::Abort));
    let r = handle(&mut c, &paths(), Some(&job), &Presets::new(), &get("/api/events"), 0);
    assert!(matches!(r, Reply::Events));
}

#[test]
fn saved_presets_are_loaded() {
    let mut c = Config::default();
    c.mood = 6;
    let saved = match ask_save(&c, &Presets::new(), "  mine ") {
        Reply::Save(p) => p,
        _ => panic!("not saved"),
    };
    assert_eq!(saved.names(), vec!["mine".to_string()]);
    assert!(matches!(ask_save(&c, &saved, " \n"), Reply::State));
    c.mood = 0;
    ask_load(&mut c, &saved, "other");
    assert_eq!(c.mood, 0);
    let req = post("/api/presets/load", "{\"name\":\"mine\"}");
    assert!(matches!(handle(&mut c, &paths(), None, &saved, &req, 0), Reply::State));
    assert_eq!(c.mood, 6);
    let req = post("/api/presets/save", "{\"name\":\"a\"}");
    match handle(&mut c, &paths(), None, &saved, &req, 0) {
        Reply::Save(p) => assert_eq!(p.names(), vec!["a".to_string(), "mine".to_string()]),
        _ => panic!("not saved"),
    }
    match ask_delete(&saved, "mine") {
        Reply::Save(p) => assert!(p.names().is_empty()),
        _ => panic!("not deleted"),
    }
    let req = post("/api/presets/delete", "{\"name\":\"x\"}");
    match handle(&mut c, &paths(), None, &saved, &req, 0) {
        Reply::Save(p) => assert_eq!(p.names().len(), 1),
        _ => panic!("not deleted"),
    }
}

#[test]
fn reset_restores_the_defaults() {
    let mut c = Config::default();
    c.mood = 6;
    c.out = "/keep.wav".to_string();
    assert!(matches!(ask(&mut c, post("/api/reset", "")), Reply::State));
    assert_eq!(c.mood, 0);
    assert_eq!(c.out, "/keep.wav");
}

#[test]
fn downloads_stay_at_home() {
    let mut c = Config::default();
    match ask(&mut c, get("/api/download?path=%2Fhome%2Fu%2Fa%20b%C3%A9.wav")) {
        Reply::Download(p) => assert_eq!(p, "/home/u/a bé.wav"),
        _ => panic!("no file"),
    }
    match ask(&mut c, get("/api/download?path=/home/u/../u/x.wav")) {
        Reply::Download(p) => assert_eq!(p, "/home/u/../u/x.wav"),
        _ => panic!("no file"),
    }
    match ask(&mut c, get("/api/download?x=1&path=~/m.wav")) {
        Reply::Download(p) => assert_eq!(p, "/home/u/m.wav"),
        _ => panic!("no file"),
    }
    for raw in ["", "/etc/passwd", "/home/u/x.txt", "/home/u/../v/x.wav", "x.wav", "/home/ux/y.wav"] {
        assert_eq!(failure(ask_download("/home/u", raw)), (403, "forbidden".to_string()));
    }
    assert!(!is_legible(&get("/api/download?path=%aé")));
    assert!(is_legible(&get("/api/state?path=%aé")));
}

#[test]
fn log_is_polled_from_a_position() {
    let mut c = Config::default();
    let (mut job, _) = Job::start(4, &paths(), &Config::with_out("~/o.wav".to_string()));
    job.log.push("one".to_string());
    let l = ask_log(Some(&job), 0);
    assert_eq!((l.job_id, l.next), (4, 1));
    assert_eq!(l.lines, vec!["one".to_string()]);
    assert!(l.running && !l.success);
    assert_eq!(l.status, "running");
    assert_eq!(l.out, "/home/u/o.wav");
    job.log.push("two".to_string());
    job.watch(Poll::Success);
    let req = get("/api/log?since=1");
    match handle(&mut c, &paths(), Some(&job), &Presets::new(), &req, 0) {
        Reply::Log(m) => {
            assert_eq!(m.next, 2);
            assert_eq!(m.lines, vec!["two".to_string()]);
            assert!(!m.running && m.success);
        }
        _ => panic!("no log"),
    }
    match ask(&mut c, get("/api/log?since=x")) {
        Reply::Log(m) => {
            assert_eq!((m.job_id, m.next), (0, 0));
            assert_eq!(m.status, "idle");
            assert!(m.lines.is_empty() && !m.running && !m.success);
            assert_eq!(m.out, "");
        }
        _ => panic!("no log"),
    }
}

#[test]
fn state_shows_everything() {
    let mut c = Config::with_out(" ~/o.wav ".to_string());
    c.backend = "hip".to_string();
    let mut presets = Presets::new();
    presets.insert("p".to_string(), c.clone());
    let mut history: Vec<HistoryEntry> = Vec::new();
    for at in 0..30u64 {
        history.push(
            HistoryEntry {
                at,
                out: "o".to_string(),
                caption: "c".to_string(),
                success: false,
                wall_ms: lyra::double::make(0, "0"),
            },
        );
    }
    let s = state_value(&c, &paths(), None, &presets, &history);
    assert_eq!(s.fields.len(), 25);
    for (f, v) in ALL_FIELDS.iter().zip(s.fields.iter()) {
        assert_eq!(v.id, f.id());
        assert_eq!(v.label, f.label());
        assert_eq!(v.auto_choice, f.has_auto());
    }
    assert_eq!(s.fields[21].value, "hip");
    assert_eq!(s.fields[21].index, 4);
    assert_eq!(s.fields[21].options.len(), 5);
    assert_eq!(s.fields[22].index, 0);
    assert_eq!(s.out_path, "/home/u/o.wav");
    assert_eq!(s.status, "idle");
    assert!(!s.running);
    assert_eq!(s.presets, vec!["p".to_string()]);
    assert_eq!(s.history.len(), 20);
    assert_eq!(s.history[0].at, 29);
    assert!(s.errors.is_empty());
    assert!(s.command.starts_with("/bin/audiocpp_cli --task gen"));
    assert_eq!(s.caption, c.caption());
    let t = state_value(&c, &paths(), Some(Status::Running), &presets, &Vec::new());
    assert!(t.running);
    assert_eq!(t.status, "running");
}

#[test]
fn field_requests_take_their_arguments() {
    let mut c = Config::default();
    assert!(matches!(ask_field(&mut c, &paths(), "seed", "reroll", "", 5), Reply::State));
    assert_eq!(c.seed, 5);
    assert!(matches!(ask_field(&mut c, &paths(), "mood", "reroll", "", 6), Reply::State));
    assert_eq!(c.seed, 5);
    assert_eq!(c.mood, 0);
}

fn scene(lines: &[&str], status: Status) -> Scene {
    Scene {
        lines: lines.iter().map(|s| s.to_string()).collect(),
        status,
        out: "/o\"x.wav".to_string(),
        wall_ms: "12.5".to_string(),
    }
}

fn drain(s: &mut SseStream, max: usize) -> String {
    let mut all: Vec<u8> = Vec::new();
    while s.is_ready() {
        let part = s.take(max);
        assert!(part.len() <= max && part.len() > 0);
        all.extend(part);
    }
    String::from_utf8(all).unwrap()
}

#[test]
fn stream_tells_lines_and_then_the_end() {
    let mut s = SseStream::new();
    assert!(!s.is_ready());
    assert!(s.advance(&scene(&[], Status::Running)) == Next::Wait);
    assert!(s.advance(&scene(&["a\"b\\c\n\té\u{1}\u{7f}", "2"], Status::Running)) == Next::Ready);
    assert_eq!(
        drain(&mut s, 3),
        "data: \"a\\\"b\\\\c\\n\\té\\u0001\u{7f}\"\n\ndata: \"2\"\n\n"
    );
    assert!(s.advance(&scene(&["", "2"], Status::Running)) == Next::Wait);
    assert!(s.advance(&scene(&["1", "2", "\u{8}\u{c}\r"], Status::Success)) == Next::Ready);
    assert_eq!(drain(&mut s, 1000), "data: \"\\b\\f\\r\"\n\n");
    assert!(s.advance(&scene(&["1", "2", "3"], Status::Success)) == Next::Ready);
    assert_eq!(
        drain(&mut s, 7),
        "event: done\ndata: {\"out\":\"/o\\\"x.wav\",\"status\":\"success\",\"success\":true,\"wall_ms\":12.5}\n\n"
    );
    assert!(s.advance(&scene(&["1", "2", "3"], Status::Success)) == Next::End);
}

#[test]
fn every_character_is_told_as_json() {
    for u in (0..0x300u32).chain([0x2028, 0xfffd, 0x1f3b5]) {
        let Some(c) = char::from_u32(u) else { continue };
        let escaped = match c {
            '"' => "\\\"".to_string(),
            '\\' => "\\\\".to_string(),
            '\u{8}' => "\\b".to_string(),
            '\t' => "\\t".to_string(),
            '\n' => "\\n".to_string(),
            '\u{c}' => "\\f".to_string(),
            '\r' => "\\r".to_string(),
            _ if u < 32 => format!("\\u{u:04x}"),
            _ => c.to_string(),
        };
        let mut s = SseStream::new();
        let line = c.to_string();
        s.advance(&scene(&[line.as_str()], Status::Running));
        assert_eq!(drain(&mut s, 64), format!("data: \"{escaped}\"\n\n"));
    }
}

#[test]
fn replies_have_their_status() {
    let mut c = Config::default();
    assert_eq!(status_of(&ask(&mut c, get("/"))), 200);
    assert_eq!(status_of(&ask(&mut c, get("/api/health"))), 200);
    assert_eq!(status_of(&ask(&mut c, get("/api/state"))), 200);
    assert_eq!(status_of(&ask(&mut c, get("/api/log"))), 200);
    assert_eq!(status_of(&ask(&mut c, get("/api/events"))), 200);
    assert_eq!(status_of(&ask(&mut c, get("/nope"))), 404);
    assert_eq!(status_of(&ask(&mut c, get("/api/download?path=/etc/x.wav"))), 403);
    assert_eq!(status_of(&ask(&mut c, get("/api/download?path=~/x.wav"))), 200);
    assert_eq!(status_of(&ask(&mut c, post("/api/generate", ""))), 200);
    let pre = Request { method: Method::Options, url: "/".to_string(), body: String::new() };
    assert_eq!(status_of(&ask(&mut c, pre)), 204);
    c.out = "".to_string();
    assert_eq!(status_of(&ask(&mut c, post("/api/generate", ""))), 400);
    assert_eq!(status_of(&ask_generate(&c, &paths(), Some(Status::Running))), 409);
    assert_eq!(status_of(&fail_launch("x")), 500);
}

#[test]
fn two_looks_tell_what_one_would() {
    let mut twice = SseStream::new();
    twice.advance(&scene(&["a"], Status::Running));
    let mut told = drain(&mut twice, 5);
    twice.advance(&scene(&["a", "b", "c"], Status::Success));
    told.push_str(&drain(&mut twice, 5));
    let mut once = SseStream::new();
    once.advance(&scene(&["a", "b", "c"], Status::Success));
    assert_eq!(told, drain(&mut once, 100));
}
