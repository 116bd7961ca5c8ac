//! The web interface as a function of the state and a request: what is answered, and what is left
//! to be done.

use vstd::prelude::*;
use vstd::utf8::encode_utf8;

use crate::argv::{arguments, build_argv};
use crate::config::{defaults, Config, ConfigV};
use crate::detect::{Paths, PathsV};
use crate::edit::{
    adjust, adjusted, choices, in_lists, lemma_choices_len, lemma_step, options, picked,
    select_index, selected, set_select, set_text, shown, toggle, toggled, typed_in, value_string,
};
use crate::field::{field_named, Field, Kind, ALL_FIELDS, HELPS, LABELS};
use crate::history::{last_rows, newest, row_views, HistoryEntry, HistoryV};
use crate::json::{index_member, int_member, member, member_or_empty};
use crate::number::{read_u64, unsigned, up_to};
use crate::path::{expand_tilde, expanded, is_under, under};
use crate::presets::{found, lemma_spot, names_of, put, rising, spot, without, PresetV, Presets};
use crate::runner::{Job, Status};
use crate::shell::{command_line, shell_join};
use crate::text::{ends, ends_with, first_of, same, split_once, trim, trimmed, views};
use crate::url::{decodable, is_decodable, param, percent_decode, percent_decoded, query_param};

verus! {

// --- requests ----------------------------------------------------------------------------------

/// The method of a request.
#[derive(Clone, Copy, Debug, PartialEq, Eq, Structural)]
pub enum Method {
    Get,
    Post,
    Options,
    Other,
}

/// A request.
pub struct Request {
    pub method: Method,
    pub url: String,
    pub body: String,
}

/// What a request is for.
#[derive(Clone, Copy, Debug, PartialEq, Eq, Structural)]
pub enum Route {
    Preflight,
    Page,
    Health,
    State,
    Log,
    Events,
    Download,
    Field,
    Select,
    Generate,
    Abort,
    Reset,
    Save,
    Load,
    Delete,
    Unknown,
}

/// What a request with a method and a path is for.
pub open spec fn routed(m: Method, path: Seq<char>) -> Route {
    match m {
        Method::Options => Route::Preflight,
        Method::Get => if path == "/"@ || path == "/index.html"@ {
            Route::Page
        } else if path == "/api/health"@ {
            Route::Health
        } else if path == "/api/state"@ {
            Route::State
        } else if path == "/api/log"@ {
            Route::Log
        } else if path == "/api/events"@ {
            Route::Events
        } else if path == "/api/download"@ {
            Route::Download
        } else {
            Route::Unknown
        },
        Method::Post => if path == "/api/field"@ {
            Route::Field
        } else if path == "/api/select"@ {
            Route::Select
        } else if path == "/api/generate"@ {
            Route::Generate
        } else if path == "/api/abort"@ {
            Route::Abort
        } else if path == "/api/reset"@ {
            Route::Reset
        } else if path == "/api/presets/save"@ {
            Route::Save
        } else if path == "/api/presets/load"@ {
            Route::Load
        } else if path == "/api/presets/delete"@ {
            Route::Delete
        } else {
            Route::Unknown
        },
        Method::Other => Route::Unknown,
    }
}

/// What a request with a method and a path is for.
pub fn route(m: Method, path: &str) -> (r: Route)
    ensures
        r == routed(m, path@),
{
    match m {
        Method::Options => Route::Preflight,
        Method::Get => if same(path, "/") || same(path, "/index.html") {
            Route::Page
        } else if same(path, "/api/health") {
            Route::Health
        } else if same(path, "/api/state") {
            Route::State
        } else if same(path, "/api/log") {
            Route::Log
        } else if same(path, "/api/events") {
            Route::Events
        } else if same(path, "/api/download") {
            Route::Download
        } else {
            Route::Unknown
        },
        Method::Post => if same(path, "/api/field") {
            Route::Field
        } else if same(path, "/api/select") {
            Route::Select
        } else if same(path, "/api/generate") {
            Route::Generate
        } else if same(path, "/api/abort") {
            Route::Abort
        } else if same(path, "/api/reset") {
            Route::Reset
        } else if same(path, "/api/presets/save") {
            Route::Save
        } else if same(path, "/api/presets/load") {
            Route::Load
        } else if same(path, "/api/presets/delete") {
            Route::Delete
        } else {
            Route::Unknown
        },
        Method::Other => Route::Unknown,
    }
}

/// The path of an address.
pub open spec fn path_of(url: Seq<char>) -> Seq<char> {
    url.take(first_of(url, '?'))
}

/// The query of an address.
pub open spec fn query_of(url: Seq<char>) -> Seq<char> {
    if first_of(url, '?') < url.len() {
        url.skip(first_of(url, '?') + 1)
    } else {
        Seq::<char>::empty()
    }
}

fn cut(url: &str) -> (r: (String, String))
    ensures
        r.0@ == path_of(url@),
        r.1@ == query_of(url@),
{
    match split_once(url, '?') {
        Some(p) => p,
        None => {
            assert(url@.take(url@.len() as int) =~= url@);
            (url.to_string(), String::new())
        },
    }
}

/// A parameter of a query; nothing where there is none.
pub open spec fn param_or_empty(query: Seq<char>, key: Seq<char>) -> Seq<char> {
    match param(query, key) {
        Some(s) => s,
        None => Seq::<char>::empty(),
    }
}

fn parameter(query: &str, key: &str) -> (r: String)
    ensures
        r@ == param_or_empty(query@, key@),
{
    match query_param(query, key) {
        Some(s) => s,
        None => String::new(),
    }
}

/// Whether the address of a request can be decoded where it has to be: in a download.
pub open spec fn legible(req: Request) -> bool {
    routed(req.method, path_of(req.url@)) is Download ==> decodable(
        encode_utf8(param_or_empty(query_of(req.url@), "path"@)),
    )
}

/// Whether the address of a request can be decoded where it has to be.
pub fn is_legible(req: &Request) -> (r: bool)
    ensures
        r == legible(*req),
{
    let (path, query) = cut(req.url.as_str());
    match route(req.method, path.as_str()) {
        Route::Download => is_decodable(parameter(query.as_str(), "path").as_str()),
        _ => true,
    }
}

// --- replies -----------------------------------------------------------------------------------

/// The part of a log that was asked for.
pub struct LogReply {
    pub job_id: u64,
    pub next: u64,
    pub lines: Vec<String>,
    pub running: bool,
    pub status: String,
    pub success: bool,
    pub out: String,
}

/// What a [`LogReply`] holds.
#[verifier::ext_equal]
pub struct LogReplyV {
    pub job_id: u64,
    pub next: nat,
    pub lines: Seq<Seq<char>>,
    pub running: bool,
    pub status: Seq<char>,
    pub success: bool,
    pub out: Seq<char>,
}

impl View for LogReply {
    type V = LogReplyV;

    open spec fn view(&self) -> LogReplyV {
        LogReplyV {
            job_id: self.job_id,
            next: self.next as nat,
            lines: views(self.lines@),
            running: self.running,
            status: self.status@,
            success: self.success,
            out: self.out@,
        }
    }
}

/// What a request is answered, and what is left to be done for it.
pub enum Reply {
    /// Nothing, with the headers that let another page ask.
    Empty,
    /// The page.
    Page,
    /// That the server is there.
    Health,
    /// The state.
    State,
    /// A part of the log.
    Log(LogReply),
    /// The stream of events of the job.
    Events,
    /// A file.
    Download(String),
    /// An error, with the status of the response.
    Failure(u16, String),
    /// What is missing for a generation.
    Refused(Vec<String>),
    /// Start a job; the state, or an error where that fails.
    Launch,
    /// Kill the job; the state.
    Abort,
    /// Move a number with a fraction by steps, and hand the sum to `adjust`; the state.
    Adjust(Field, i64),
    /// Read a text as a number with a fraction, and hand both to `set_text`; the state.
    SetNumber(Field, String),
    /// Write the presets to disk; the state.
    Save(Presets),
    /// That there is nothing at the address.
    NotFound,
}

/// What a [`Reply`] holds.
#[verifier::ext_equal]
pub enum ReplyV {
    Empty,
    Page,
    Health,
    State,
    Log(LogReplyV),
    Events,
    Download(Seq<char>),
    Failure(u16, Seq<char>),
    Refused(Seq<Seq<char>>),
    Launch,
    Abort,
    Adjust(Field, i64),
    SetNumber(Field, Seq<char>),
    Save(Seq<PresetV>),
    NotFound,
}

impl View for Reply {
    type V = ReplyV;

    open spec fn view(&self) -> ReplyV {
        match self {
            Reply::Empty => ReplyV::Empty,
            Reply::Page => ReplyV::Page,
            Reply::Health => ReplyV::Health,
            Reply::State => ReplyV::State,
            Reply::Log(l) => ReplyV::Log(l@),
            Reply::Events => ReplyV::Events,
            Reply::Download(p) => ReplyV::Download(p@),
            Reply::Failure(code, s) => ReplyV::Failure(*code, s@),
            Reply::Refused(v) => ReplyV::Refused(views(v@)),
            Reply::Launch => ReplyV::Launch,
            Reply::Abort => ReplyV::Abort,
            Reply::Adjust(f, d) => ReplyV::Adjust(*f, *d),
            Reply::SetNumber(f, s) => ReplyV::SetNumber(*f, s@),
            Reply::Save(p) => ReplyV::Save(p.all()),
            Reply::NotFound => ReplyV::NotFound,
        }
    }
}

/// The status of the response: that of success, but for an error with its own, for what is missing,
/// for nothing at all, and where there is nothing at the address.
pub open spec fn status(r: ReplyV) -> u16 {
    match r {
        ReplyV::Empty => 204,
        ReplyV::Failure(code, _) => code,
        ReplyV::Refused(_) => 400,
        ReplyV::NotFound => 404,
        _ => 200,
    }
}

/// The status of the response.
pub fn status_of(r: &Reply) -> (s: u16)
    ensures
        s == status(r@),
{
    match r {
        Reply::Empty => 204,
        Reply::Failure(code, _) => *code,
        Reply::Refused(_) => 400,
        Reply::NotFound => 404,
        _ => 200,
    }
}

// --- what a request means ------------------------------------------------------------------------

/// Changing a field: a step down or up, turning a switch, a new seed, or a text. An unknown field
/// or action changes nothing.
pub open spec fn field_asked(
    c: ConfigV,
    paths: PathsV,
    id: Seq<char>,
    action: Seq<char>,
    value: Seq<char>,
    seed: u64,
) -> (ConfigV, ReplyV) {
    match field_named(id) {
        None => (c, ReplyV::State),
        Some(f) => if action == "cycle-"@ || action == "cycle+"@ {
            let delta = if action == "cycle-"@ {
                -1i64
            } else {
                1i64
            };
            if f.sort() == Kind::Float {
                (c, ReplyV::Adjust(f, delta))
            } else {
                (adjusted(c, paths, f, delta as int, None), ReplyV::State)
            }
        } else if action == "toggle"@ {
            (toggled(c, f), ReplyV::State)
        } else if action == "reroll"@ {
            (
                if f is Seed {
                    ConfigV { seed, ..c }
                } else {
                    c
                },
                ReplyV::State,
            )
        } else if action == "set"@ {
            if f.sort() == Kind::Float {
                (c, ReplyV::SetNumber(f, value))
            } else {
                (typed_in(c, f, value, None), ReplyV::State)
            }
        } else {
            (c, ReplyV::State)
        },
    }
}

/// Choosing by index; an index below zero is beyond the end.
pub open spec fn select_asked(c: ConfigV, paths: PathsV, id: Seq<char>, index: int) -> ConfigV {
    match field_named(id) {
        None => c,
        Some(f) => selected(
            c,
            paths,
            f,
            if index < 0 {
                choices(paths, f).len() as int + 1
            } else {
                index
            },
        ),
    }
}

/// Asking for a generation: refused while one runs or anything is missing for it.
pub open spec fn generate_asked(c: ConfigV, paths: PathsV, job: Option<Status>) -> ReplyV {
    if job == Some(Status::Running) {
        ReplyV::Failure(409, "already running"@)
    } else if c.faults(paths).len() > 0 {
        ReplyV::Refused(c.faults(paths))
    } else {
        ReplyV::Launch
    }
}

/// Saving the settings under a name, without the white space around it; not without a name.
pub open spec fn save_asked(c: ConfigV, presets: Seq<PresetV>, name: Seq<char>) -> ReplyV {
    if trimmed(name).len() == 0 {
        ReplyV::State
    } else {
        ReplyV::Save(put(presets, trimmed(name), c))
    }
}

/// Taking over the settings that were saved under a name.
pub open spec fn load_asked(c: ConfigV, presets: Seq<PresetV>, name: Seq<char>) -> ConfigV {
    match found(presets, name) {
        Some(saved) => saved,
        None => c,
    }
}

/// Asking for a file: it must be a sound file under the home directory.
pub open spec fn download_asked(home: Seq<char>, raw: Seq<char>) -> ReplyV {
    let path = expanded(percent_decoded(raw), home);
    if under(path, home) && ends(path, ".wav"@) {
        ReplyV::Download(path)
    } else {
        ReplyV::Failure(403, "forbidden"@)
    }
}

/// The position in a log that a query asks for.
pub open spec fn since(query: Seq<char>) -> nat {
    match up_to(unsigned(param_or_empty(query, "since"@)), u64::MAX as nat) {
        Some(n) => n,
        None => 0,
    }
}

/// Asking for the log from a position on.
pub open spec fn log_asked(job: Option<&Job>, cursor: nat) -> LogReplyV {
    match job {
        Some(j) => LogReplyV {
            job_id: j.id,
            next: j.log@.total(),
            lines: j.log@.from(cursor),
            running: j.status is Running,
            status: j.status.shown(),
            success: j.status is Success,
            out: j.out_path@,
        },
        None => LogReplyV {
            job_id: 0,
            next: 0,
            lines: Seq::<Seq<char>>::empty(),
            running: false,
            status: "idle"@,
            success: false,
            out: Seq::<char>::empty(),
        },
    }
}

/// How a job stands, where there is one.
pub open spec fn standing(job: Option<&Job>) -> Option<Status> {
    match job {
        Some(j) => Some(j.status),
        None => None,
    }
}

/// The settings behind a request, and what it is answered. `seed` is a new seed.
pub open spec fn answered(
    c: ConfigV,
    paths: PathsV,
    job: Option<&Job>,
    presets: Seq<PresetV>,
    req: Request,
    seed: u64,
) -> (ConfigV, ReplyV) {
    let body = req.body@;
    let query = query_of(req.url@);
    let name = member_or_empty(body, "name"@);
    match routed(req.method, path_of(req.url@)) {
        Route::Preflight => (c, ReplyV::Empty),
        Route::Page => (c, ReplyV::Page),
        Route::Health => (c, ReplyV::Health),
        Route::State => (c, ReplyV::State),
        Route::Log => (c, ReplyV::Log(log_asked(job, since(query)))),
        Route::Events => (
            c,
            if job is Some {
                ReplyV::Events
            } else {
                ReplyV::Failure(200, "no job"@)
            },
        ),
        Route::Download => (c, download_asked(paths.home, param_or_empty(query, "path"@))),
        Route::Field => field_asked(
            c,
            paths,
            member_or_empty(body, "id"@),
            member_or_empty(body, "action"@),
            member_or_empty(body, "value"@),
            seed,
        ),
        Route::Select => (
            select_asked(
                c,
                paths,
                member_or_empty(body, "id"@),
                match int_member(body, "index"@) {
                    Some(i) => i as int,
                    None => 0,
                },
            ),
            ReplyV::State,
        ),
        Route::Generate => (c, generate_asked(c, paths, standing(job))),
        Route::Abort => (
            c,
            if job is Some {
                ReplyV::Abort
            } else {
                ReplyV::State
            },
        ),
        Route::Reset => (defaults(c.out), ReplyV::State),
        Route::Save => (c, save_asked(c, presets, name)),
        Route::Load => (load_asked(c, presets, name), ReplyV::State),
        Route::Delete => (c, ReplyV::Save(without(presets, name))),
        Route::Unknown => (c, ReplyV::NotFound),
    }
}

// --- doing what a request means ------------------------------------------------------------------

/// Whether presets are in order, and their settings in their lists.
pub open spec fn sound(presets: Seq<PresetV>) -> bool {
    &&& rising(presets)
    &&& forall|i: int| 0 <= i < presets.len() ==> in_lists(#[trigger] presets[i].cfg)
}

/// Changes a field.
pub fn ask_field(cfg: &mut Config, paths: &Paths, id: &str, action: &str, value: &str, seed: u64)
    -> (r: Reply)
    requires
        in_lists(old(cfg)@),
        paths@.disk.names.len() < isize::MAX,
    ensures
        (final(cfg)@, r@) == field_asked(old(cfg)@, paths@, id@, action@, value@, seed),
        in_lists(final(cfg)@),
{
    let f = match Field::from_id(id) {
        Some(f) => f,
        None => {
            return Reply::State;
        },
    };
    let down = same(action, "cycle-");
    if down || same(action, "cycle+") {
        let delta: i64 = if down {
            -1
        } else {
            1
        };
        if f.kind() == Kind::Float {
            return Reply::Adjust(f, delta);
        }
        proof {
            lemma_step(cfg@, paths@, f, delta as int);
        }
        adjust(cfg, paths, f, delta, None);
    } else if same(action, "toggle") {
        toggle(cfg, f);
    } else if same(action, "reroll") {
        if f == Field::Seed {
            cfg.seed = seed;
        }
    } else if same(action, "set") {
        if f.kind() == Kind::Float {
            return Reply::SetNumber(f, value.to_string());
        }
        set_text(cfg, f, value, None);
    }
    Reply::State
}

/// Chooses by index.
pub fn ask_select(cfg: &mut Config, paths: &Paths, id: &str, index: i64)
    requires
        in_lists(old(cfg)@),
        paths@.disk.names.len() < isize::MAX,
    ensures
        final(cfg)@ == select_asked(old(cfg)@, paths@, id@, index as int),
        in_lists(final(cfg)@),
{
    if let Some(f) = Field::from_id(id) {
        proof {
            lemma_choices_len(paths@, f);
        }
        let idx: usize = if index < 0 || index as u64 > usize::MAX as u64 {
            usize::MAX
        } else {
            index as usize
        };
        set_select(cfg, paths, f, idx);
    }
}

/// Asks for a generation.
pub fn ask_generate(cfg: &Config, paths: &Paths, job: Option<Status>) -> (r: Reply)
    ensures
        r@ == generate_asked(cfg@, paths@, job),
{
    if let Some(s) = job {
        if s.is_running() {
            return Reply::Failure(409, "already running".to_string());
        }
    }
    let faults = cfg.errors(paths);
    assert(views(faults@).len() == faults@.len());
    if faults.len() > 0 {
        Reply::Refused(faults)
    } else {
        Reply::Launch
    }
}

/// Saves the settings under a name.
pub fn ask_save(cfg: &Config, presets: &Presets, name: &str) -> (r: Reply)
    requires
        presets.wf(),
    ensures
        r@ == save_asked(cfg@, presets.all(), name@),
        match r {
            Reply::Save(p) => p.wf(),
            _ => true,
        },
{
    let name = trim(name);
    if name.as_str().is_empty() {
        return Reply::State;
    }
    let mut all = presets.copy();
    all.insert(name, cfg.clone());
    Reply::Save(all)
}

/// Takes over the settings that were saved under a name.
pub fn ask_load(cfg: &mut Config, presets: &Presets, name: &str)
    ensures
        final(cfg)@ == load_asked(old(cfg)@, presets.all(), name@),
{
    if let Some(saved) = presets.get(name) {
        *cfg = saved;
    }
}

/// Drops what was saved under a name.
pub fn ask_delete(presets: &Presets, name: &str) -> (r: Reply)
    requires
        presets.wf(),
    ensures
        r@ == ReplyV::Save(without(presets.all(), name@)),
        match r {
            Reply::Save(p) => p.wf(),
            _ => false,
        },
{
    let mut all = presets.copy();
    all.remove(name);
    Reply::Save(all)
}

/// Asks for a file.
pub fn ask_download(home: &str, raw: &str) -> (r: Reply)
    requires
        decodable(encode_utf8(raw@)),
    ensures
        r@ == download_asked(home@, raw@),
{
    let path = expand_tilde(percent_decode(raw).as_str(), home);
    if is_under(path.as_str(), home) && ends_with(path.as_str(), ".wav") {
        Reply::Download(path)
    } else {
        Reply::Failure(403, "forbidden".to_string())
    }
}

/// Asks for the log from a position on.
pub fn ask_log(job: Option<&Job>, cursor: u64) -> (r: LogReply)
    requires
        job matches Some(j) ==> j.log@.total() <= u64::MAX,
    ensures
        r@ == log_asked(job, cursor as nat),
{
    match job {
        Some(j) => {
            let (next, lines) = j.lines_since(cursor);
            LogReply {
                job_id: j.id,
                next,
                lines,
                running: j.running(),
                status: j.status.label(),
                success: j.status.is_success(),
                out: j.out_path.clone(),
            }
        },
        None => {
            let r = LogReply {
                job_id: 0,
                next: 0,
                lines: Vec::new(),
                running: false,
                status: "idle".to_string(),
                success: false,
                out: String::new(),
            };
            assert(views(r.lines@) =~= Seq::<Seq<char>>::empty());
            r
        },
    }
}

proof fn lemma_presets_in_lists(ps: Seq<PresetV>, name: Seq<char>, c: ConfigV)
    requires
        sound(ps),
        in_lists(c),
    ensures
        found(ps, name) matches Some(saved) ==> in_lists(saved),
        sound(put(ps, name, c)),
        sound(without(ps, name)),
{
    lemma_spot(ps, name);
    crate::presets::law_presets_stay_in_order(ps, name, c);
    let k = spot(ps, name);
    let more = put(ps, name, c);
    assert forall|i: int| 0 <= i < more.len() implies in_lists(#[trigger] more[i].cfg) by {
        if i < k {
            assert(more[i] == ps[i]);
        } else if i > k {
            if more.len() == ps.len() {
                assert(more[i] == ps[i]);
            } else {
                assert(more[i] == ps[i - 1]);
            }
        }
    }
    let less = without(ps, name);
    assert forall|i: int| 0 <= i < less.len() implies in_lists(#[trigger] less[i].cfg) by {
        if less.len() == ps.len() || i < k {
            assert(less[i] == ps[i]);
        } else {
            assert(less[i] == ps[i + 1]);
        }
    }
}

/// Answers a request.
pub fn handle(
    cfg: &mut Config,
    paths: &Paths,
    job: Option<&Job>,
    presets: &Presets,
    req: &Request,
    seed: u64,
) -> (r: Reply)
    requires
        in_lists(old(cfg)@),
        paths@.disk.names.len() < isize::MAX,
        sound(presets.all()),
        job matches Some(j) ==> j.log@.total() <= u64::MAX,
        legible(*req),
    ensures
        (final(cfg)@, r@) == answered(old(cfg)@, paths@, job, presets.all(), *req, seed),
        in_lists(final(cfg)@),
        match r {
            Reply::Save(p) => sound(p.all()),
            _ => true,
        },
{
    let (path, query) = cut(req.url.as_str());
    let body = req.body.as_str();
    match route(req.method, path.as_str()) {
        Route::Preflight => Reply::Empty,
        Route::Page => Reply::Page,
        Route::Health => Reply::Health,
        Route::State => Reply::State,
        Route::Log => {
            let cursor: u64 = match read_u64(parameter(query.as_str(), "since").as_str()) {
                Some(n) => n,
                None => 0,
            };
            Reply::Log(ask_log(job, cursor))
        },
        Route::Events => match job {
            Some(_) => Reply::Events,
            None => Reply::Failure(200, "no job".to_string()),
        },
        Route::Download => ask_download(
            paths.home.as_str(),
            parameter(query.as_str(), "path").as_str(),
        ),
        Route::Field => ask_field(
            cfg,
            paths,
            member(body, "id").as_str(),
            member(body, "action").as_str(),
            member(body, "value").as_str(),
            seed,
        ),
        Route::Select => {
            ask_select(cfg, paths, member(body, "id").as_str(), index_member(body, "index"));
            Reply::State
        },
        Route::Generate => {
            let standing = match job {
                Some(j) => Some(j.status),
                None => None,
            };
            ask_generate(cfg, paths, standing)
        },
        Route::Abort => match job {
            Some(_) => Reply::Abort,
            None => Reply::State,
        },
        Route::Reset => {
            *cfg = Config::with_out(cfg.out.clone());
            Reply::State
        },
        Route::Save => {
            let name = member(body, "name");
            proof {
                lemma_presets_in_lists(presets.all(), trimmed(name@), cfg@);
            }
            ask_save(cfg, presets, name.as_str())
        },
        Route::Load => {
            let name = member(body, "name");
            proof {
                lemma_presets_in_lists(presets.all(), name@, cfg@);
            }
            ask_load(cfg, presets, name.as_str());
            Reply::State
        },
        Route::Delete => {
            let name = member(body, "name");
            proof {
                lemma_presets_in_lists(presets.all(), name@, cfg@);
            }
            ask_delete(presets, name.as_str())
        },
        Route::Unknown => Reply::NotFound,
    }
}

/// What is answered where a job could not be started.
pub open spec fn launch_failed(why: Seq<char>) -> ReplyV {
    ReplyV::Failure(500, "launch failed: "@ + why)
}

/// What is answered where a job could not be started.
pub fn fail_launch(why: &str) -> (r: Reply)
    ensures
        r@ == launch_failed(why@),
{
    let mut s = "launch failed: ".to_string();
    s.append(why);
    Reply::Failure(500, s)
}

// --- the state ---------------------------------------------------------------------------------

/// How many rows of the history are in the state.
pub const RECENT: usize = 20;

/// A field as the page shows it.
pub struct FieldState {
    pub id: &'static str,
    pub label: &'static str,
    pub group: &'static str,
    pub kind: &'static str,
    pub help: &'static str,
    pub value: String,
    pub index: usize,
    pub options: Vec<String>,
    pub auto_choice: bool,
}

/// What a [`FieldState`] holds.
#[verifier::ext_equal]
pub struct FieldStateV {
    pub id: Seq<char>,
    pub label: Seq<char>,
    pub group: Seq<char>,
    pub kind: Seq<char>,
    pub help: Seq<char>,
    pub value: Seq<char>,
    pub index: int,
    pub options: Seq<Seq<char>>,
    pub auto_choice: bool,
}

impl View for FieldState {
    type V = FieldStateV;

    open spec fn view(&self) -> FieldStateV {
        FieldStateV {
            id: self.id@,
            label: self.label@,
            group: self.group@,
            kind: self.kind@,
            help: self.help@,
            value: self.value@,
            index: self.index as int,
            options: views(self.options@),
            auto_choice: self.auto_choice,
        }
    }
}

/// The state as the page shows it.
pub struct StateReply {
    pub fields: Vec<FieldState>,
    pub caption: String,
    pub lyrics: String,
    pub out_path: String,
    pub warnings: Vec<String>,
    pub errors: Vec<String>,
    pub command: String,
    pub bin: String,
    pub model: String,
    pub backend: String,
    pub presets: Vec<String>,
    pub history: Vec<HistoryEntry>,
    pub running: bool,
    pub status: String,
}

/// What a [`StateReply`] holds.
#[verifier::ext_equal]
pub struct StateReplyV {
    pub fields: Seq<FieldStateV>,
    pub caption: Seq<char>,
    pub lyrics: Seq<char>,
    pub out_path: Seq<char>,
    pub warnings: Seq<Seq<char>>,
    pub errors: Seq<Seq<char>>,
    pub command: Seq<char>,
    pub bin: Seq<char>,
    pub model: Seq<char>,
    pub backend: Seq<char>,
    pub presets: Seq<Seq<char>>,
    pub history: Seq<HistoryV>,
    pub running: bool,
    pub status: Seq<char>,
}

/// The fields as the page shows them.
pub open spec fn field_states(v: Seq<FieldState>) -> Seq<FieldStateV> {
    v.map_values(|f: FieldState| f@)
}

impl View for StateReply {
    type V = StateReplyV;

    open spec fn view(&self) -> StateReplyV {
        StateReplyV {
            fields: field_states(self.fields@),
            caption: self.caption@,
            lyrics: self.lyrics@,
            out_path: self.out_path@,
            warnings: views(self.warnings@),
            errors: views(self.errors@),
            command: self.command@,
            bin: self.bin@,
            model: self.model@,
            backend: self.backend@,
            presets: views(self.presets@),
            history: row_views(self.history@),
            running: self.running,
            status: self.status@,
        }
    }
}

/// A field as the page shows it.
pub open spec fn field_state(c: ConfigV, paths: PathsV, f: Field) -> FieldStateV {
    FieldStateV {
        id: f.name(),
        label: LABELS@[f.place()]@,
        group: f.tab_group().name(),
        kind: f.sort().name(),
        help: HELPS@[f.place()]@,
        value: shown(c, f),
        index: if f.sort() == Kind::Select {
            picked(c, paths, f)
        } else {
            0
        },
        options: choices(paths, f),
        auto_choice: f.automatic(),
    }
}

/// The state as the page shows it: every field once and in order, what the settings come to, what
/// is wrong with them, the command that they stand for, the presets, and the newest runs.
pub open spec fn state_of(
    c: ConfigV,
    paths: PathsV,
    job: Option<Status>,
    presets: Seq<PresetV>,
    history: Seq<HistoryV>,
) -> StateReplyV {
    StateReplyV {
        fields: ALL_FIELDS@.map_values(|f: Field| field_state(c, paths, f)),
        caption: c.title(),
        lyrics: c.sung(),
        out_path: expanded(trimmed(c.out), paths.home),
        warnings: c.advice(paths),
        errors: c.faults(paths),
        command: command_line(arguments(paths, c)),
        bin: paths.bin,
        model: paths.model_dir,
        backend: paths.backend,
        presets: names_of(presets),
        history: last_rows(history, RECENT as nat).reverse(),
        running: job == Some(Status::Running),
        status: match job {
            Some(s) => s.shown(),
            None => "idle"@,
        },
    }
}

fn show_field(cfg: &Config, paths: &Paths, f: Field) -> (r: FieldState)
    requires
        paths@.disk.names.len() < isize::MAX,
    ensures
        r@ == field_state(cfg@, paths@, f),
{
    proof {
        lemma_choices_len(paths@, f);
    }
    FieldState {
        id: f.id(),
        label: f.label(),
        group: f.group().as_str(),
        kind: f.kind().as_str(),
        help: f.help(),
        value: value_string(cfg, f),
        index: if f.kind() == Kind::Select {
            select_index(cfg, paths, f)
        } else {
            0
        },
        options: options(paths, f),
        auto_choice: f.has_auto(),
    }
}

/// The state as the page shows it.
pub fn state_value(
    cfg: &Config,
    paths: &Paths,
    job: Option<Status>,
    presets: &Presets,
    history: &Vec<HistoryEntry>,
) -> (r: StateReply)
    requires
        paths@.disk.names.len() < isize::MAX,
    ensures
        r@ == state_of(cfg@, paths@, job, presets.all(), row_views(history@)),
{
    let ghost all = ALL_FIELDS@.map_values(|f: Field| field_state(cfg@, paths@, f));
    let mut fields: Vec<FieldState> = Vec::new();
    let mut i: usize = 0;
    assert(field_states(fields@) =~= all.take(0));
    while i < 25
        invariant
            i <= 25,
            paths@.disk.names.len() < isize::MAX,
            all == ALL_FIELDS@.map_values(|f: Field| field_state(cfg@, paths@, f)),
            field_states(fields@) == all.take(i as int),
        decreases 25 - i,
    {
        let ghost prev = field_states(fields@);
        let f = show_field(cfg, paths, ALL_FIELDS[i]);
        fields.push(f);
        i = i + 1;
        assert(field_states(fields@) =~= prev.push(f@));
        assert(all.take(i as int) =~= all.take(i - 1).push(all[i - 1]));
    }
    assert(all.take(i as int) =~= all);
    let recent = newest(history, RECENT);
    assert(row_views(recent@) =~= last_rows(row_views(history@), RECENT as nat).reverse());
    StateReply {
        fields,
        caption: cfg.caption(),
        lyrics: cfg.lyrics_text(),
        out_path: cfg.out_path(paths.home.as_str()),
        warnings: cfg.warnings(paths),
        errors: cfg.errors(paths),
        command: shell_join(&build_argv(paths, cfg)),
        bin: paths.bin.clone(),
        model: paths.model_dir.clone(),
        backend: paths.backend.clone(),
        presets: presets.names(),
        history: recent,
        running: match job {
            Some(s) => s.is_running(),
            None => false,
        },
        status: match job {
            Some(s) => s.label(),
            None => "idle".to_string(),
        },
    }
}

} // verus!
