//! The terminal interface as a state machine: what each key does, and what is left to be done.

use vstd::prelude::*;

use crate::clock::{out_at, out_named};
use crate::config::{defaults, Config, ConfigV};
use crate::detect::{Paths, PathsV};
use crate::edit::{
    adjust, adjusted, in_lists, lemma_step, set_text, shown, toggle, toggled, typed_in,
    value_string,
};
use crate::field::{Field, Kind, ADVANCED_FIELDS, COMPONENT_FIELDS, SONG_FIELDS};
use crate::history::{row_views, HistoryEntry, HistoryV};
use crate::input::TextInput;
use crate::presets::{
    found, is_kept, lemma_spot, names_of, put, rising, spot, without, PresetV, Presets,
};
use crate::runner::Status;
use crate::text::{code, join, joined, opt, trim, trimmed, views};

verus! {

// --- tabs and keys --------------------------------------------------------------------------

/// A tab of the interface.
#[derive(Clone, Copy, Debug, PartialEq, Eq, Structural)]
pub enum Tab {
    Song,
    Advanced,
    Components,
    Run,
    Presets,
    Help,
}

/// The tabs, in their order.
pub const TABS: [Tab; 6] = [
    Tab::Song,
    Tab::Advanced,
    Tab::Components,
    Tab::Run,
    Tab::Presets,
    Tab::Help,
];

/// What is written on the tabs, in their order.
pub const TAB_NAMES: [&'static str; 6] = [
    "1 Song",
    "2 Advanced",
    "3 Components",
    "4 Run",
    "5 Presets",
    "6 Help",
];

impl Tab {
    /// The place of the tab.
    pub open spec fn place(self) -> int {
        match self {
            Tab::Song => 0,
            Tab::Advanced => 1,
            Tab::Components => 2,
            Tab::Run => 3,
            Tab::Presets => 4,
            Tab::Help => 5,
        }
    }

    fn position(self) -> (r: usize)
        ensures
            r == self.place(),
            r < 6,
    {
        match self {
            Tab::Song => 0,
            Tab::Advanced => 1,
            Tab::Components => 2,
            Tab::Run => 3,
            Tab::Presets => 4,
            Tab::Help => 5,
        }
    }

    /// The fields on the tab.
    pub open spec fn list(self) -> Seq<Field> {
        match self {
            Tab::Song => SONG_FIELDS@,
            Tab::Advanced => ADVANCED_FIELDS@,
            Tab::Components => COMPONENT_FIELDS@,
            _ => Seq::<Field>::empty(),
        }
    }

    /// How many fields are on the tab.
    pub fn count(self) -> (r: usize)
        ensures
            r == self.list().len(),
    {
        match self {
            Tab::Song => 8,
            Tab::Advanced => 13,
            Tab::Components => 4,
            _ => 0,
        }
    }

    /// A field on the tab.
    pub fn field(self, i: usize) -> (r: Field)
        requires
            i < self.list().len(),
        ensures
            r == self.list()[i as int],
    {
        match self {
            Tab::Song => SONG_FIELDS[i],
            Tab::Advanced => ADVANCED_FIELDS[i],
            _ => COMPONENT_FIELDS[i],
        }
    }

    /// The fields on the tab.
    pub fn fields(self) -> (r: Vec<Field>)
        ensures
            r@ == self.list(),
    {
        let n = self.count();
        let mut out: Vec<Field> = Vec::new();
        let mut i: usize = 0;
        assert(self.list().take(0) =~= Seq::<Field>::empty());
        while i < n
            invariant
                i <= n == self.list().len(),
                out@ == self.list().take(i as int),
            decreases n - i,
        {
            out.push(self.field(i));
            i = i + 1;
            assert(self.list().take(i as int) =~= self.list().take(i - 1).push(
                self.list()[i - 1],
            ));
        }
        assert(self.list().take(n as int) =~= self.list());
        out
    }
}

/// A key of the keyboard.
#[derive(Clone, Copy, Debug, PartialEq, Eq, Structural)]
pub enum KeyCode {
    Tab,
    BackTab,
    Char(char),
    Up,
    Down,
    Left,
    Right,
    Enter,
    Esc,
    Home,
    End,
    Backspace,
    Delete,
    Other,
}

/// A key event.
#[derive(Clone, Copy, Debug, PartialEq, Eq, Structural)]
pub struct Key {
    pub code: KeyCode,
    /// Whether the control key is held.
    pub ctrl: bool,
    /// Whether the key goes down.
    pub press: bool,
}

/// What is left to be done outside.
pub enum Action {
    Nothing,
    /// Kill the running job.
    Abort,
    /// Start a job.
    Launch,
    /// Write the presets to disk.
    SavePresets,
    /// Move a number with a fraction by steps, and hand the sum to `adjust`.
    Adjust(Field, i64),
    /// Read a text as a number with a fraction, and hand both to `set_text`.
    SetNumber(Field, String),
    /// Write the row of the job that ended, and read the history anew.
    Record,
}

/// What an [`Action`] holds.
pub enum ActionV {
    Nothing,
    Abort,
    Launch,
    SavePresets,
    Adjust(Field, i64),
    SetNumber(Field, Seq<char>),
    Record,
}

impl View for Action {
    type V = ActionV;

    open spec fn view(&self) -> ActionV {
        match self {
            Action::Nothing => ActionV::Nothing,
            Action::Abort => ActionV::Abort,
            Action::Launch => ActionV::Launch,
            Action::SavePresets => ActionV::SavePresets,
            Action::Adjust(f, d) => ActionV::Adjust(*f, *d),
            Action::SetNumber(f, s) => ActionV::SetNumber(*f, s@),
            Action::Record => ActionV::Record,
        }
    }
}

// --- the state ------------------------------------------------------------------------------

/// What an editor edits.
#[derive(Clone, Copy, Debug, PartialEq, Eq, Structural)]
pub enum EditTarget {
    Field(Field),
    PresetName,
}

/// An open editor.
pub struct Editor {
    pub target: EditTarget,
    pub input: TextInput,
    pub multiline: bool,
}

/// What an [`Editor`] holds.
#[verifier::ext_equal]
pub struct EditorV {
    pub target: EditTarget,
    pub text: Seq<char>,
    pub at: int,
    pub multiline: bool,
}

impl View for Editor {
    type V = EditorV;

    open spec fn view(&self) -> EditorV {
        EditorV {
            target: self.target,
            text: self.input.typed(),
            at: self.input.at(),
            multiline: self.multiline,
        }
    }
}

/// The state of the interface.
pub struct TuiApp {
    pub paths: Paths,
    pub cfg: Config,
    pub tab: Tab,
    pub selected: usize,
    pub edit: Option<Editor>,
    pub presets: Presets,
    pub preset_names: Vec<String>,
    pub preset_idx: usize,
    /// How the job stands, as last seen.
    pub job: Option<Status>,
    pub log: Vec<String>,
    pub history: Vec<HistoryEntry>,
    pub should_quit: bool,
    pub status_msg: Option<String>,
    pub spinner: u64,
    pub log_offset: usize,
    pub finished: bool,
}

/// What a [`TuiApp`] holds.
#[verifier::ext_equal]
pub struct TuiV {
    pub paths: PathsV,
    pub cfg: ConfigV,
    pub tab: Tab,
    pub selected: usize,
    pub edit: Option<EditorV>,
    pub presets: Seq<PresetV>,
    pub preset_names: Seq<Seq<char>>,
    pub preset_idx: usize,
    pub job: Option<Status>,
    pub log: Seq<Seq<char>>,
    pub history: Seq<HistoryV>,
    pub should_quit: bool,
    pub status_msg: Option<Seq<char>>,
    pub spinner: u64,
    pub log_offset: usize,
    pub finished: bool,
}

impl View for TuiApp {
    type V = TuiV;

    open spec fn view(&self) -> TuiV {
        TuiV {
            paths: self.paths@,
            cfg: self.cfg@,
            tab: self.tab,
            selected: self.selected,
            edit: match self.edit {
                Some(e) => Some(e@),
                None => None,
            },
            presets: self.presets.all(),
            preset_names: views(self.preset_names@),
            preset_idx: self.preset_idx,
            job: self.job,
            log: views(self.log@),
            history: row_views(self.history@),
            should_quit: self.should_quit,
            status_msg: opt(self.status_msg),
            spinner: self.spinner,
            log_offset: self.log_offset,
            finished: self.finished,
        }
    }
}

impl TuiV {
    /// The selected row is one of the longest tab, the cursor of an editor is in its text, the
    /// presets are in order, and all settings are in their lists.
    pub open spec fn wf(self) -> bool {
        &&& self.selected < 13
        &&& self.edit matches Some(e) ==> 0 <= e.at <= e.text.len()
        &&& in_lists(self.cfg)
        &&& rising(self.presets)
        &&& forall|i: int| 0 <= i < self.presets.len() ==> in_lists(#[trigger] self.presets[i].cfg)
        &&& self.paths.disk.names.len() < isize::MAX
    }

    /// Whether a job runs.
    pub open spec fn moving(self) -> bool {
        self.job == Some(Status::Running)
    }

    /// On another tab, with its first field selected.
    pub open spec fn on_tab(self, tab: Tab) -> TuiV {
        TuiV { tab, selected: 0, ..self }
    }

    /// Back on the first tab, with the same row selected, which may lie below its fields.
    pub open spec fn back(self) -> TuiV {
        TuiV { tab: Tab::Song, ..self }
    }

    /// Whether one of the fields of the tab is selected.
    pub open spec fn on_field(self) -> bool {
        self.selected < self.tab.list().len()
    }

    /// With something said.
    pub open spec fn saying(self, s: Seq<char>) -> TuiV {
        TuiV { status_msg: Some(s), ..self }
    }

    /// The list of the presets' names read anew.
    pub open spec fn reloaded(self) -> TuiV {
        let names = names_of(self.presets);
        TuiV {
            preset_names: names,
            preset_idx: if self.preset_idx < names.len() {
                self.preset_idx
            } else if names.len() > 0 {
                (names.len() - 1) as usize
            } else {
                0
            },
            ..self
        }
    }
}

// --- what the keys mean -----------------------------------------------------------------------

/// The settings with the components that were found.
pub open spec fn with_found(c: ConfigV, paths: PathsV) -> ConfigV {
    ConfigV {
        lm_gguf: match paths.language_model {
            Some(v) => v,
            None => c.lm_gguf,
        },
        flow_gguf: match paths.flow_transformer {
            Some(v) => v,
            None => c.flow_gguf,
        },
        depth_gguf: match paths.depth_decoder {
            Some(v) => v,
            None => c.depth_gguf,
        },
        ..c
    }
}

/// The interface at its start.
pub open spec fn starting(
    paths: PathsV,
    presets: Seq<PresetV>,
    history: Seq<HistoryV>,
    secs: u64,
) -> TuiV {
    TuiV {
        paths,
        cfg: with_found(defaults(out_named(secs)), paths),
        tab: Tab::Song,
        selected: 0,
        edit: None,
        presets,
        preset_names: names_of(presets),
        preset_idx: 0,
        job: None,
        log: Seq::<Seq<char>>::empty(),
        history,
        should_quit: false,
        status_msg: None,
        spinner: 0,
        log_offset: 0,
        finished: false,
    }
}

/// Asking for a generation: refused while one runs or anything is missing for it.
pub open spec fn generating(v: TuiV) -> (TuiV, ActionV) {
    if v.moving() {
        (v.saying("already generating — press a to abort"@), ActionV::Nothing)
    } else if v.cfg.faults(v.paths).len() > 0 {
        (
            v.saying("cannot generate: "@ + joined(v.cfg.faults(v.paths), "; "@)),
            ActionV::Nothing,
        )
    } else {
        (v, ActionV::Launch)
    }
}

/// A job was started: it is shown on the tab of the run, with nothing in its log yet.
pub open spec fn launching(v: TuiV) -> TuiV {
    TuiV {
        job: Some(Status::Running),
        log: Seq::<Seq<char>>::empty(),
        log_offset: 0,
        finished: false,
        status_msg: None,
        tab: Tab::Run,
        ..v
    }
}

/// Adjusting the selected field by a step.
pub open spec fn stepping(v: TuiV, delta: int) -> (TuiV, ActionV) {
    let f = v.tab.list()[v.selected as int];
    if f.sort() == Kind::Float {
        (v, ActionV::Adjust(f, delta as i64))
    } else {
        (TuiV { cfg: adjusted(v.cfg, v.paths, f, delta, None), ..v }, ActionV::Nothing)
    }
}

/// Opening an editor for a field.
pub open spec fn opening(v: TuiV, f: Field) -> TuiV {
    let text = if f is Genre {
        v.cfg.genre_custom
    } else {
        shown(v.cfg, f)
    };
    TuiV {
        edit: Some(
            EditorV {
                target: EditTarget::Field(f),
                text,
                at: text.len() as int,
                multiline: f is Lyrics,
            },
        ),
        ..v
    }
}

/// A key on a tab with fields.
pub open spec fn field_key(v: TuiV, code: KeyCode) -> (TuiV, ActionV) {
    let n = v.tab.list().len();
    let f = v.tab.list()[v.selected as int];
    match code {
        KeyCode::Up | KeyCode::Char('k') => (
            TuiV {
                selected: if v.selected > 0 {
                    (v.selected - 1) as usize
                } else {
                    0
                },
                ..v
            },
            ActionV::Nothing,
        ),
        KeyCode::Down | KeyCode::Char('j') => (
            TuiV {
                selected: if v.selected + 1 < n {
                    (v.selected + 1) as usize
                } else {
                    (n - 1) as usize
                },
                ..v
            },
            ActionV::Nothing,
        ),
        KeyCode::Left | KeyCode::Char('h') => stepping(v, -1),
        KeyCode::Right | KeyCode::Char('l') => stepping(v, 1),
        KeyCode::Char(' ') => if f.sort() == Kind::Bool {
            (TuiV { cfg: toggled(v.cfg, f), ..v }, ActionV::Nothing)
        } else {
            stepping(v, 1)
        },
        KeyCode::Enter => match f.sort() {
            Kind::Bool => (TuiV { cfg: toggled(v.cfg, f), ..v }, ActionV::Nothing),
            Kind::Select => if f is Genre && v.cfg.custom_genre() {
                (opening(v, f), ActionV::Nothing)
            } else {
                stepping(v, 1)
            },
            _ => (opening(v, f), ActionV::Nothing),
        },
        KeyCode::Esc => (v.back(), ActionV::Nothing),
        _ => (v, ActionV::Nothing),
    }
}

/// A key on the tab of the run; `secs` is the time and `seed` a new seed.
pub open spec fn run_key(v: TuiV, code: KeyCode, secs: u64, seed: u64) -> (TuiV, ActionV) {
    match code {
        KeyCode::Enter => generating(v),
        KeyCode::Char('x') => (
            v,
            if v.job is Some {
                ActionV::Abort
            } else {
                ActionV::Nothing
            },
        ),
        KeyCode::Up | KeyCode::Char('k') => (
            TuiV {
                log_offset: if v.log_offset < usize::MAX {
                    (v.log_offset + 1) as usize
                } else {
                    v.log_offset
                },
                ..v
            },
            ActionV::Nothing,
        ),
        KeyCode::Down | KeyCode::Char('j') => (
            TuiV {
                log_offset: if v.log_offset > 0 {
                    (v.log_offset - 1) as usize
                } else {
                    0
                },
                ..v
            },
            ActionV::Nothing,
        ),
        KeyCode::End => (TuiV { log_offset: 0, ..v }, ActionV::Nothing),
        KeyCode::Char('n') => (
            TuiV { cfg: ConfigV { out: out_named(secs), ..v.cfg }, finished: false, ..v },
            ActionV::Nothing,
        ),
        KeyCode::Char('s') => (TuiV { cfg: ConfigV { seed, ..v.cfg }, ..v }, ActionV::Nothing),
        KeyCode::Esc => (v.back(), ActionV::Nothing),
        _ => (v, ActionV::Nothing),
    }
}

/// A key on the tab of the presets.
pub open spec fn presets_key(v: TuiV, code: KeyCode) -> (TuiV, ActionV) {
    let n = v.preset_names.len();
    match code {
        KeyCode::Up | KeyCode::Char('k') => (
            TuiV {
                preset_idx: if v.preset_idx > 0 {
                    (v.preset_idx - 1) as usize
                } else {
                    0
                },
                ..v
            },
            ActionV::Nothing,
        ),
        KeyCode::Down | KeyCode::Char('j') => (
            TuiV {
                preset_idx: if n == 0 {
                    v.preset_idx
                } else if v.preset_idx + 1 < n {
                    (v.preset_idx + 1) as usize
                } else {
                    (n - 1) as usize
                },
                ..v
            },
            ActionV::Nothing,
        ),
        KeyCode::Enter => if v.preset_idx < n {
            let name = v.preset_names[v.preset_idx as int];
            match found(v.presets, name) {
                Some(c) => (
                    (TuiV { cfg: c, ..v }).saying("loaded preset '"@ + name + "'"@),
                    ActionV::Nothing,
                ),
                None => (v, ActionV::Nothing),
            }
        } else {
            (v, ActionV::Nothing)
        },
        KeyCode::Char('s') => (
            TuiV {
                edit: Some(
                    EditorV {
                        target: EditTarget::PresetName,
                        text: Seq::<char>::empty(),
                        at: 0,
                        multiline: false,
                    },
                ),
                ..v
            },
            ActionV::Nothing,
        ),
        KeyCode::Char('d') => if v.preset_idx < n {
            let name = v.preset_names[v.preset_idx as int];
            (
                (TuiV { presets: without(v.presets, name), ..v }).reloaded().saying(
                    "deleted preset '"@ + name + "'"@,
                ),
                ActionV::SavePresets,
            )
        } else {
            (v, ActionV::Nothing)
        },
        KeyCode::Esc => (v.back(), ActionV::Nothing),
        _ => (v, ActionV::Nothing),
    }
}

/// Back to the default settings, with the components that were found: on the tab of the presets
/// with a new output path, elsewhere with the old one.
pub open spec fn resetting(v: TuiV, secs: u64) -> TuiV {
    if v.tab is Presets {
        (TuiV { cfg: with_found(defaults(out_named(secs)), v.paths), ..v }).saying(
            "reset to defaults"@,
        )
    } else {
        TuiV { cfg: with_found(defaults(v.cfg.out), v.paths), ..v }
    }
}

/// Closing the editor and taking over its text.
pub open spec fn committing(v: TuiV) -> (TuiV, ActionV) {
    match v.edit {
        None => (v, ActionV::Nothing),
        Some(e) => {
            let w = TuiV { edit: None, ..v };
            match e.target {
                EditTarget::Field(f) => if f.sort() == Kind::Float {
                    (w, ActionV::SetNumber(f, e.text))
                } else {
                    (TuiV { cfg: typed_in(v.cfg, f, e.text, None), ..w }, ActionV::Nothing)
                },
                EditTarget::PresetName => {
                    let name = trimmed(e.text);
                    if name.len() == 0 {
                        (w, ActionV::Nothing)
                    } else {
                        (
                            (TuiV { presets: put(v.presets, name, v.cfg), ..w }).reloaded().saying(
                                "saved preset '"@ + name + "'"@,
                            ),
                            ActionV::SavePresets,
                        )
                    }
                },
            }
        },
    }
}

/// A key in the text of an editor.
pub open spec fn text_key(e: EditorV, key: Key) -> EditorV {
    if key.ctrl {
        e
    } else {
        match key.code {
            KeyCode::Char(c) => EditorV { text: e.text.insert(e.at, c), at: e.at + 1, ..e },
            KeyCode::Backspace => if e.at > 0 {
                EditorV { text: e.text.remove(e.at - 1), at: e.at - 1, ..e }
            } else {
                e
            },
            KeyCode::Delete => if e.at < e.text.len() {
                EditorV { text: e.text.remove(e.at), ..e }
            } else {
                e
            },
            KeyCode::Left => EditorV {
                at: if e.at > 0 {
                    e.at - 1
                } else {
                    0
                },
                ..e
            },
            KeyCode::Right => EditorV {
                at: if e.at < e.text.len() {
                    e.at + 1
                } else {
                    e.at
                },
                ..e
            },
            KeyCode::Home => EditorV { at: 0, ..e },
            KeyCode::End => EditorV { at: e.text.len() as int, ..e },
            _ => e,
        }
    }
}

/// A key while an editor is open.
pub open spec fn editor_key(v: TuiV, key: Key) -> (TuiV, ActionV) {
    match v.edit {
        None => (v, ActionV::Nothing),
        Some(e) => if key.code is Esc {
            (TuiV { edit: None, ..v }, ActionV::Nothing)
        } else if key.code is Enter && (!e.multiline || key.ctrl) {
            committing(v)
        } else if key.code is Tab && e.multiline {
            committing(v)
        } else if key.code is Enter {
            (
                TuiV { edit: Some(EditorV { text: e.text.insert(e.at, '\n'), at: e.at + 1, ..e }), ..v },
                ActionV::Nothing,
            )
        } else {
            (TuiV { edit: Some(text_key(e, key)), ..v }, ActionV::Nothing)
        },
    }
}

/// The tab that lies a number of places on, around the end.
pub open spec fn tab_after(tab: Tab, dir: int) -> Tab {
    TABS@[(tab.place() + dir) % 6]
}

/// Whether the character is a digit other than zero.
pub open spec fn tab_digit(c: char) -> bool {
    49 <= c as int <= 57
}

/// A key while no editor is open. The keys for quitting, generating, aborting, resetting, help and
/// the tabs mean the same on every tab.
pub open spec fn main_key(v: TuiV, key: Key, secs: u64, seed: u64) -> (TuiV, ActionV) {
    let code = key.code;
    if key.ctrl && (code == KeyCode::Char('q') || code == KeyCode::Char('c')) {
        (
            TuiV { should_quit: true, ..v },
            if v.moving() {
                ActionV::Abort
            } else {
                ActionV::Nothing
            },
        )
    } else {
        match code {
            KeyCode::Tab => (v.on_tab(tab_after(v.tab, 1)), ActionV::Nothing),
            KeyCode::BackTab => (v.on_tab(tab_after(v.tab, -1)), ActionV::Nothing),
            KeyCode::Char('g') => generating(v),
            KeyCode::Char('a') => (
                v,
                if v.job is Some {
                    ActionV::Abort
                } else {
                    ActionV::Nothing
                },
            ),
            KeyCode::Char('r') => (resetting(v, secs), ActionV::Nothing),
            KeyCode::Char('?') => (v.on_tab(Tab::Help), ActionV::Nothing),
            _ => if code matches KeyCode::Char(c) && tab_digit(c) {
                (
                    if (code->Char_0) as int - 49 < 6 {
                        v.on_tab(TABS@[(code->Char_0) as int - 49])
                    } else {
                        v
                    },
                    ActionV::Nothing,
                )
            } else {
                match v.tab {
                    Tab::Song | Tab::Advanced | Tab::Components => field_key(v, code),
                    Tab::Run => run_key(v, code, secs, seed),
                    Tab::Presets => presets_key(v, code),
                    Tab::Help => (v, ActionV::Nothing),
                }
            },
        }
    }
}

/// What a key event does. Only keys that go down count.
pub open spec fn pressed(v: TuiV, key: Key, secs: u64, seed: u64) -> (TuiV, ActionV) {
    if !key.press {
        (v, ActionV::Nothing)
    } else if v.edit is Some {
        editor_key(v, key)
    } else {
        main_key(v, key, secs, seed)
    }
}

/// Whether a key is for the selected field.
pub open spec fn for_field(code: KeyCode) -> bool {
    match code {
        KeyCode::Left | KeyCode::Right | KeyCode::Enter | KeyCode::Char('h') | KeyCode::Char('l')
        | KeyCode::Char(' ') => true,
        _ => false,
    }
}

/// Whether a key event has what it needs: on a tab with fields, a key for the selected field needs
/// one to be selected.
pub open spec fn takes(v: TuiV, key: Key) -> bool {
    key.press && v.edit is None && v.tab.list().len() > 0 && for_field(key.code) ==> v.on_field()
}

// --- doing what the keys mean -----------------------------------------------------------------

/// Prefills the components with those that were found.
fn apply_found(cfg: &mut Config, paths: &Paths)
    ensures
        final(cfg)@ == with_found(old(cfg)@, paths@),
{
    if let Some(v) = &paths.language_model {
        cfg.lm_gguf = v.clone();
    }
    if let Some(v) = &paths.flow_transformer {
        cfg.flow_gguf = v.clone();
    }
    if let Some(v) = &paths.depth_decoder {
        cfg.depth_gguf = v.clone();
    }
}

fn say(a: &str, name: &str, b: &str) -> (r: Option<String>)
    ensures
        opt(r) == Some(a@ + name@ + b@),
{
    let mut s = a.to_string();
    s.append(name);
    s.append(b);
    Some(s)
}

impl TuiApp {
    /// The interface at its start.
    pub fn new(paths: Paths, presets: Presets, history: Vec<HistoryEntry>, secs: u64) -> (r: Self)
        requires
            presets.wf(),
            forall|i: int|
                0 <= i < presets.all().len() ==> in_lists(#[trigger] presets.all()[i].cfg),
            paths@.disk.names.len() < isize::MAX,
        ensures
            r@.wf(),
            r@ == starting(paths@, presets.all(), row_views(history@), secs),
    {
        let mut cfg = Config::with_out(out_at(secs));
        apply_found(&mut cfg, &paths);
        let preset_names = presets.names();
        let r = TuiApp {
            paths,
            cfg,
            tab: Tab::Song,
            selected: 0,
            edit: None,
            presets,
            preset_names,
            preset_idx: 0,
            job: None,
            log: Vec::new(),
            history,
            should_quit: false,
            status_msg: None,
            spinner: 0,
            log_offset: 0,
            finished: false,
        };
        assert(r@.log =~= Seq::<Seq<char>>::empty());
        r
    }

    fn moving(&self) -> (r: bool)
        ensures
            r == self@.moving(),
    {
        match &self.job {
            Some(s) => s.is_running(),
            None => false,
        }
    }

    /// Asks for a generation: refused while one runs or anything is missing for it.
    pub fn generate(&mut self) -> (r: Action)
        requires
            old(self)@.wf(),
        ensures
            final(self)@.wf(),
            (final(self)@, r@) == generating(old(self)@),
    {
        if self.moving() {
            self.status_msg = Some("already generating — press a to abort".to_string());
            return Action::Nothing;
        }
        let errors = self.cfg.errors(&self.paths);
        assert(views(errors@).len() == errors@.len());
        if errors.len() > 0 {
            let mut s = "cannot generate: ".to_string();
            s.append(join(&errors, "; ").as_str());
            self.status_msg = Some(s);
            return Action::Nothing;
        }
        Action::Launch
    }

    /// Takes in that a job was started.
    pub fn launched(&mut self)
        requires
            old(self)@.wf(),
        ensures
            final(self)@.wf(),
            final(self)@ == launching(old(self)@),
    {
        self.job = Some(Status::Running);
        self.log = Vec::new();
        self.log_offset = 0;
        self.finished = false;
        self.status_msg = None;
        self.tab = Tab::Run;
        assert(self@.log =~= Seq::<Seq<char>>::empty());
    }

    /// Takes in that a job could not be started.
    pub fn launch_failed(&mut self, why: &str)
        requires
            old(self)@.wf(),
        ensures
            final(self)@.wf(),
            final(self)@ == old(self)@.saying("launch failed: "@ + why@),
    {
        let mut s = "launch failed: ".to_string();
        s.append(why);
        self.status_msg = Some(s);
    }

    fn back(&mut self)
        requires
            old(self)@.wf(),
        ensures
            final(self)@.wf(),
            final(self)@ == old(self)@.back(),
    {
        self.tab = Tab::Song;
    }

    fn switch_tab(&mut self, tab: Tab)
        requires
            old(self)@.wf(),
        ensures
            final(self)@.wf(),
            final(self)@ == old(self)@.on_tab(tab),
    {
        self.tab = tab;
        self.selected = 0;
    }

    fn step(&mut self, delta: i64) -> (r: Action)
        requires
            old(self)@.wf(),
            old(self)@.on_field(),
            delta == 1 || delta == -1,
        ensures
            final(self)@.wf(),
            (final(self)@, r@) == stepping(old(self)@, delta as int),
    {
        let f = self.tab.field(self.selected);
        proof {
            lemma_step(self.cfg@, self.paths@, f, delta as int);
        }
        match f.kind() {
            Kind::Float => Action::Adjust(f, delta),
            _ => {
                adjust(&mut self.cfg, &self.paths, f, delta, None);
                Action::Nothing
            },
        }
    }

    fn open_editor(&mut self, f: Field)
        requires
            old(self)@.wf(),
        ensures
            final(self)@.wf(),
            final(self)@ == opening(old(self)@, f),
    {
        let cur = match f {
            Field::Genre => self.cfg.genre_custom.clone(),
            _ => value_string(&self.cfg, f),
        };
        let multiline = match f {
            Field::Lyrics => true,
            _ => false,
        };
        self.edit = Some(
            Editor {
                target: EditTarget::Field(f),
                input: TextInput::new(cur.as_str()),
                multiline,
            },
        );
    }

    fn field_key(&mut self, code: KeyCode) -> (r: Action)
        requires
            old(self)@.wf(),
            old(self)@.tab.list().len() > 0,
            for_field(code) ==> old(self)@.on_field(),
        ensures
            final(self)@.wf(),
            (final(self)@, r@) == field_key(old(self)@, code),
    {
        match code {
            KeyCode::Up | KeyCode::Char('k') => {
                if self.selected > 0 {
                    self.selected = self.selected - 1;
                }
                Action::Nothing
            },
            KeyCode::Down | KeyCode::Char('j') => {
                let n = self.tab.count();
                if self.selected + 1 < n {
                    self.selected = self.selected + 1;
                } else {
                    self.selected = n - 1;
                }
                Action::Nothing
            },
            KeyCode::Left | KeyCode::Char('h') => self.step(-1),
            KeyCode::Right | KeyCode::Char('l') => self.step(1),
            KeyCode::Char(' ') => {
                let f = self.tab.field(self.selected);
                match f.kind() {
                    Kind::Bool => {
                        toggle(&mut self.cfg, f);
                        Action::Nothing
                    },
                    _ => self.step(1),
                }
            },
            KeyCode::Enter => {
                let f = self.tab.field(self.selected);
                match f.kind() {
                    Kind::Bool => {
                        toggle(&mut self.cfg, f);
                        Action::Nothing
                    },
                    Kind::Select => {
                        if f == Field::Genre && self.cfg.is_custom_genre() {
                            self.open_editor(f);
                            Action::Nothing
                        } else {
                            self.step(1)
                        }
                    },
                    _ => {
                        self.open_editor(f);
                        Action::Nothing
                    },
                }
            },
            KeyCode::Esc => {
                self.back();
                Action::Nothing
            },
            _ => Action::Nothing,
        }
    }

    fn run_key(&mut self, code: KeyCode, secs: u64, seed: u64) -> (r: Action)
        requires
            old(self)@.wf(),
        ensures
            final(self)@.wf(),
            (final(self)@, r@) == run_key(old(self)@, code, secs, seed),
    {
        match code {
            KeyCode::Enter => self.generate(),
            KeyCode::Char('x') => match self.job {
                Some(_) => Action::Abort,
                None => Action::Nothing,
            },
            KeyCode::Up | KeyCode::Char('k') => {
                if self.log_offset < usize::MAX {
                    self.log_offset = self.log_offset + 1;
                }
                Action::Nothing
            },
            KeyCode::Down | KeyCode::Char('j') => {
                if self.log_offset > 0 {
                    self.log_offset = self.log_offset - 1;
                }
                Action::Nothing
            },
            KeyCode::End => {
                self.log_offset = 0;
                Action::Nothing
            },
            KeyCode::Char('n') => {
                self.cfg.out = out_at(secs);
                self.finished = false;
                Action::Nothing
            },
            KeyCode::Char('s') => {
                self.cfg.seed = seed;
                Action::Nothing
            },
            KeyCode::Esc => {
                self.back();
                Action::Nothing
            },
            _ => Action::Nothing,
        }
    }

    fn reload_presets(&mut self)
        requires
            old(self)@.wf(),
        ensures
            final(self)@.wf(),
            final(self)@ == old(self)@.reloaded(),
    {
        self.preset_names = self.presets.names();
        assert(self.preset_names@.len() == self@.preset_names.len());
        let n = self.preset_names.len();
        if self.preset_idx >= n {
            self.preset_idx = if n > 0 {
                n - 1
            } else {
                0
            };
        }
    }

    fn presets_key(&mut self, code: KeyCode) -> (r: Action)
        requires
            old(self)@.wf(),
        ensures
            final(self)@.wf(),
            (final(self)@, r@) == presets_key(old(self)@, code),
    {
        assert(self.preset_names@.len() == self@.preset_names.len());
        match code {
            KeyCode::Up | KeyCode::Char('k') => {
                if self.preset_idx > 0 {
                    self.preset_idx = self.preset_idx - 1;
                }
                Action::Nothing
            },
            KeyCode::Down | KeyCode::Char('j') => {
                let n = self.preset_names.len();
                if n > 0 {
                    if self.preset_idx < n - 1 {
                        self.preset_idx = self.preset_idx + 1;
                    } else {
                        self.preset_idx = n - 1;
                    }
                }
                Action::Nothing
            },
            KeyCode::Enter => {
                if self.preset_idx < self.preset_names.len() {
                    let name = self.preset_names[self.preset_idx].clone();
                    assert(name@ == self@.preset_names[self.preset_idx as int]);
                    proof {
                        lemma_spot(self@.presets, name@);
                    }
                    if let Some(cfg) = self.presets.get(name.as_str()) {
                        self.cfg = cfg;
                        self.status_msg = say("loaded preset '", name.as_str(), "'");
                    }
                }
                Action::Nothing
            },
            KeyCode::Char('s') => {
                proof {
                    reveal_strlit("");
                }
                self.edit = Some(
                    Editor {
                        target: EditTarget::PresetName,
                        input: TextInput::new(""),
                        multiline: false,
                    },
                );
                assert(self@.edit->0.text =~= Seq::<char>::empty());
                Action::Nothing
            },
            KeyCode::Char('d') => {
                if self.preset_idx < self.preset_names.len() {
                    let name = self.preset_names[self.preset_idx].clone();
                    assert(name@ == self@.preset_names[self.preset_idx as int]);
                    self.presets.remove(name.as_str());
                    assert(self@.wf()) by {
                        lemma_without_in_lists(old(self)@.presets, name@);
                    }
                    self.reload_presets();
                    self.status_msg = say("deleted preset '", name.as_str(), "'");
                    Action::SavePresets
                } else {
                    Action::Nothing
                }
            },
            KeyCode::Esc => {
                self.back();
                Action::Nothing
            },
            _ => Action::Nothing,
        }
    }

    fn reset(&mut self, secs: u64)
        requires
            old(self)@.wf(),
        ensures
            final(self)@.wf(),
            final(self)@ == resetting(old(self)@, secs),
    {
        match self.tab {
            Tab::Presets => {
                self.cfg = Config::with_out(out_at(secs));
                apply_found(&mut self.cfg, &self.paths);
                self.status_msg = Some("reset to defaults".to_string());
            },
            _ => {
                self.cfg = Config::with_out(self.cfg.out.clone());
                apply_found(&mut self.cfg, &self.paths);
            },
        }
    }

    fn commit_editor(&mut self) -> (r: Action)
        requires
            old(self)@.wf(),
        ensures
            final(self)@.wf(),
            (final(self)@, r@) == committing(old(self)@),
    {
        match self.edit.take() {
            None => Action::Nothing,
            Some(e) => {
                let s = e.input.as_string();
                match e.target {
                    EditTarget::Field(f) => match f.kind() {
                        Kind::Float => Action::SetNumber(f, s),
                        _ => {
                            set_text(&mut self.cfg, f, s.as_str(), None);
                            Action::Nothing
                        },
                    },
                    EditTarget::PresetName => {
                        let name = trim(s.as_str());
                        if name.as_str().is_empty() {
                            Action::Nothing
                        } else {
                            let cfg = self.cfg.clone();
                            self.presets.insert(name.clone(), cfg);
                            assert(self@.wf()) by {
                                lemma_put_in_lists(old(self)@.presets, name@, cfg@);
                            }
                            self.reload_presets();
                            self.status_msg = say("saved preset '", name.as_str(), "'");
                            Action::SavePresets
                        }
                    },
                }
            },
        }
    }

    fn editor_key(&mut self, key: Key) -> (r: Action)
        requires
            old(self)@.wf(),
        ensures
            final(self)@.wf(),
            (final(self)@, r@) == editor_key(old(self)@, key),
    {
        let multiline = match &self.edit {
            Some(e) => e.multiline,
            None => {
                return Action::Nothing;
            },
        };
        match key.code {
            KeyCode::Esc => {
                self.edit = None;
                Action::Nothing
            },
            KeyCode::Enter => {
                if !multiline || key.ctrl {
                    self.commit_editor()
                } else {
                    if let Some(mut e) = self.edit.take() {
                        e.input.insert('\n');
                        self.edit = Some(e);
                    }
                    Action::Nothing
                }
            },
            _ => {
                if key.code == KeyCode::Tab && multiline {
                    self.commit_editor()
                } else {
                    if let Some(mut e) = self.edit.take() {
                        edit_single(&mut e, key);
                        self.edit = Some(e);
                    }
                    Action::Nothing
                }
            },
        }
    }

    fn main_key(&mut self, key: Key, secs: u64, seed: u64) -> (r: Action)
        requires
            old(self)@.wf(),
            old(self)@.tab.list().len() > 0 && for_field(key.code) ==> old(self)@.on_field(),
        ensures
            final(self)@.wf(),
            (final(self)@, r@) == main_key(old(self)@, key, secs, seed),
    {
        let code = key.code;
        if key.ctrl && (code == KeyCode::Char('q') || code == KeyCode::Char('c')) {
            let running = self.moving();
            self.should_quit = true;
            return if running {
                Action::Abort
            } else {
                Action::Nothing
            };
        }
        match code {
            KeyCode::Tab => {
                let i = self.tab.position();
                self.switch_tab(TABS[(i + 1) % 6]);
                Action::Nothing
            },
            KeyCode::BackTab => {
                let i = self.tab.position();
                self.switch_tab(TABS[(i + 5) % 6]);
                Action::Nothing
            },
            KeyCode::Char('g') => self.generate(),
            KeyCode::Char('a') => match self.job {
                Some(_) => Action::Abort,
                None => Action::Nothing,
            },
            KeyCode::Char('r') => {
                self.reset(secs);
                Action::Nothing
            },
            KeyCode::Char('?') => {
                self.switch_tab(Tab::Help);
                Action::Nothing
            },
            _ => {
                if let KeyCode::Char(c) = code {
                    let u = crate::text::code(c);
                    if 49 <= u && u <= 57 {
                        let i: usize = (u - 49) as usize;
                        if i < 6 {
                            self.switch_tab(TABS[i]);
                        }
                        return Action::Nothing;
                    }
                }
                match self.tab {
                    Tab::Song | Tab::Advanced | Tab::Components => self.field_key(code),
                    Tab::Run => self.run_key(code, secs, seed),
                    Tab::Presets => self.presets_key(code),
                    Tab::Help => Action::Nothing,
                }
            },
        }
    }

    /// Whether a key event has what it needs: a key that changes the selected field needs one.
    pub fn can_take(&self, key: Key) -> (r: bool)
        ensures
            r == takes(self@, key),
    {
        let wants = match key.code {
            KeyCode::Left | KeyCode::Right | KeyCode::Enter | KeyCode::Char('h') | KeyCode::Char('l')
            | KeyCode::Char(' ') => true,
            _ => false,
        };
        let n = self.tab.count();
        let editing = match &self.edit {
            Some(_) => true,
            None => false,
        };
        !key.press || editing || n == 0 || !wants || self.selected < n
    }

    /// Takes in a key event; `secs` is the time and `seed` a new seed.
    pub fn on_key(&mut self, key: Key, secs: u64, seed: u64) -> (r: Action)
        requires
            old(self)@.wf(),
            takes(old(self)@, key),
        ensures
            final(self)@.wf(),
            (final(self)@, r@) == pressed(old(self)@, key, secs, seed),
    {
        if !key.press {
            return Action::Nothing;
        }
        match &self.edit {
            Some(_) => self.editor_key(key),
            None => self.main_key(key, secs, seed),
        }
    }

    /// Takes in that time has passed. `seen` is how the job stands and what is in its log, where
    /// there is a job. The first time that the job is seen ended its row is due.
    pub fn on_tick(&mut self, seen: Option<(Status, Vec<String>)>) -> (r: Action)
        requires
            old(self)@.wf(),
        ensures
            final(self)@.wf(),
            (final(self)@, r@) == ticked(
                old(self)@,
                match seen {
                    Some(p) => Some((p.0, views(p.1@))),
                    None => None,
                },
            ),
    {
        self.spinner = self.spinner.wrapping_add(1);
        match self.job {
            None => Action::Nothing,
            Some(_) => match seen {
                None => Action::Nothing,
                Some(p) => {
                    self.job = Some(p.0);
                    self.log = p.1;
                    if !p.0.is_running() && !self.finished {
                        self.finished = true;
                        self.status_msg = Some(p.0.label());
                        Action::Record
                    } else {
                        Action::Nothing
                    }
                },
            },
        }
    }
}

/// What passing time does.
pub open spec fn ticked(v: TuiV, seen: Option<(Status, Seq<Seq<char>>)>) -> (TuiV, ActionV) {
    let w = TuiV {
        spinner: if v.spinner < u64::MAX {
            (v.spinner + 1) as u64
        } else {
            0
        },
        ..v
    };
    if v.job is None || seen is None {
        (w, ActionV::Nothing)
    } else {
        let (status, lines) = seen->0;
        let x = TuiV { job: Some(status), log: lines, ..w };
        if status !is Running && !v.finished {
            ((TuiV { finished: true, ..x }).saying(status.shown()), ActionV::Record)
        } else {
            (x, ActionV::Nothing)
        }
    }
}

/// Takes a key into the text of an editor.
fn edit_single(e: &mut Editor, key: Key)
    requires
        old(e).input.wf(),
    ensures
        final(e).input.wf(),
        final(e)@ == text_key(old(e)@, key),
{
    if key.ctrl {
        return;
    }
    match key.code {
        KeyCode::Char(c) => e.input.insert(c),
        KeyCode::Backspace => e.input.backspace(),
        KeyCode::Delete => e.input.delete(),
        KeyCode::Left => e.input.left(),
        KeyCode::Right => e.input.right(),
        KeyCode::Home => e.input.home(),
        KeyCode::End => e.input.end(),
        _ => {},
    }
}

proof fn lemma_without_in_lists(ps: Seq<PresetV>, name: Seq<char>)
    requires
        forall|i: int| 0 <= i < ps.len() ==> in_lists(#[trigger] ps[i].cfg),
    ensures
        forall|i: int|
            0 <= i < without(ps, name).len() ==> in_lists(#[trigger] without(ps, name)[i].cfg),
{
    lemma_spot(ps, name);
    let w = without(ps, name);
    let s = spot(ps, name);
    assert forall|i: int| 0 <= i < w.len() implies in_lists(#[trigger] w[i].cfg) by {
        if is_kept(ps, name) {
            assert(w[i] == ps[if i < s { i } else { i + 1 }]);
        }
    }
}

proof fn lemma_put_in_lists(ps: Seq<PresetV>, name: Seq<char>, cfg: ConfigV)
    requires
        forall|i: int| 0 <= i < ps.len() ==> in_lists(#[trigger] ps[i].cfg),
        in_lists(cfg),
    ensures
        forall|i: int|
            0 <= i < put(ps, name, cfg).len() ==> in_lists(#[trigger] put(ps, name, cfg)[i].cfg),
{
    lemma_spot(ps, name);
    let q = put(ps, name, cfg);
    let s = spot(ps, name);
    assert forall|i: int| 0 <= i < q.len() implies in_lists(#[trigger] q[i].cfg) by {
        if i != s {
            if is_kept(ps, name) || i < s {
                assert(q[i] == ps[i]);
            } else {
                assert(q[i] == ps[i - 1]);
            }
        }
    }
}

} // verus!
