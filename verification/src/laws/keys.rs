//! What the keys do.

use vstd::prelude::*;

use crate::clock::out_named;
use crate::config::ConfigV;
use crate::detect::PathsV;
use crate::edit::{adjusted, shown, slots, picked};
use crate::field::{Field, Kind};
use crate::history::HistoryV;
use crate::laws::choices::{law_cycling_moves_the_index, settled_on, told_apart};
use crate::presets::{
    found, law_deleted_is_gone, law_load_gives_back_what_was_saved, names_of, rising, PresetV,
};
use crate::runner::Status;
use crate::text::{joined, trimmed};
use crate::tui::{
    generating, launching, pressed, starting, ticked, ActionV, EditTarget, EditorV, Key, KeyCode,
    Tab, TuiV,
};

verus! {

/// A key that goes down while control is not held.
pub open spec fn down(code: KeyCode) -> Key {
    Key { code, ctrl: false, press: true }
}

/// The interface behind a key.
pub open spec fn struck(v: TuiV, code: KeyCode, secs: u64, seed: u64) -> TuiV {
    pressed(v, down(code), secs, seed).0
}

/// The open editor behind a key.
pub open spec fn edited(v: TuiV, code: KeyCode, secs: u64, seed: u64) -> EditorV {
    struck(v, code, secs, seed).edit->0
}

/// Whether an editor is open, with its cursor in its text.
pub open spec fn is_editing(v: TuiV) -> bool {
    v.edit matches Some(e) && 0 <= e.at <= e.text.len()
}

// --- in an editor ----------------------------------------------------------------------------------

/// A character that is typed stands at the cursor, which goes behind it; what is before and behind
/// stays as it is.
pub proof fn law_typed_character_stands_at_the_cursor(v: TuiV, c: char, secs: u64, seed: u64)
    requires
        is_editing(v),
    ensures
        ({
            let e = v.edit->0;
            let d = edited(v, KeyCode::Char(c), secs, seed);
            &&& struck(v, KeyCode::Char(c), secs, seed).edit is Some
            &&& d.text.len() == e.text.len() + 1
            &&& d.text.take(e.at) == e.text.take(e.at)
            &&& d.text[e.at] == c
            &&& d.text.skip(e.at + 1) == e.text.skip(e.at)
            &&& d.at == e.at + 1
        }),
{
    let e = v.edit->0;
    let d = edited(v, KeyCode::Char(c), secs, seed);
    assert(d.text.take(e.at) =~= e.text.take(e.at));
    assert(d.text.skip(e.at + 1) =~= e.text.skip(e.at));
}

/// Backspace takes back a character that was typed: the text and the cursor are as before, wherever the
/// cursor stood, and so is everything else.
pub proof fn law_backspace_takes_back_what_was_typed(v: TuiV, c: char, secs: u64, seed: u64)
    requires
        is_editing(v),
    ensures
        struck(struck(v, KeyCode::Char(c), secs, seed), KeyCode::Backspace, secs, seed) == v,
{
    let e = v.edit->0;
    assert(e.text.insert(e.at, c).remove(e.at) =~= e.text);
    assert(struck(struck(v, KeyCode::Char(c), secs, seed), KeyCode::Backspace, secs, seed) =~= v);
}

/// Backspace takes the character before the cursor: the text is one shorter, what is behind the cursor
/// stays, and so does what is before that character. At the beginning there is nothing to take.
pub proof fn law_backspace_takes_the_character_before(v: TuiV, secs: u64, seed: u64)
    requires
        is_editing(v),
    ensures
        ({
            let e = v.edit->0;
            let d = edited(v, KeyCode::Backspace, secs, seed);
            &&& e.at > 0 ==> d.text.len() == e.text.len() - 1
            &&& e.at > 0 ==> d.at == e.at - 1
            &&& e.at > 0 ==> d.text.take(d.at) == e.text.take(e.at - 1)
            &&& e.at > 0 ==> d.text.skip(d.at) == e.text.skip(e.at)
            &&& e.at == 0 ==> struck(v, KeyCode::Backspace, secs, seed) == v
        }),
{
    let e = v.edit->0;
    let d = edited(v, KeyCode::Backspace, secs, seed);
    if e.at > 0 {
        assert(d.text.take(d.at) =~= e.text.take(e.at - 1));
        assert(d.text.skip(d.at) =~= e.text.skip(e.at));
    } else {
        assert(struck(v, KeyCode::Backspace, secs, seed) =~= v);
    }
}

/// Delete takes the character behind the cursor, which stays where it is: what is before it stays, and
/// what is behind the character moves up. At the end there is nothing to take.
pub proof fn law_delete_takes_the_character_behind(v: TuiV, secs: u64, seed: u64)
    requires
        is_editing(v),
    ensures
        ({
            let e = v.edit->0;
            let d = edited(v, KeyCode::Delete, secs, seed);
            &&& d.at == e.at
            &&& d.text.take(d.at) == e.text.take(e.at)
            &&& e.at < e.text.len() ==> d.text.len() == e.text.len() - 1
            &&& e.at < e.text.len() ==> d.text.skip(d.at) == e.text.skip(e.at + 1)
            &&& e.at == e.text.len() ==> struck(v, KeyCode::Delete, secs, seed) == v
        }),
{
    let e = v.edit->0;
    let d = edited(v, KeyCode::Delete, secs, seed);
    assert(d.text.take(d.at) =~= e.text.take(e.at));
    if e.at < e.text.len() {
        assert(d.text.skip(d.at) =~= e.text.skip(e.at + 1));
    } else {
        assert(struck(v, KeyCode::Delete, secs, seed) =~= v);
    }
}

/// Going left and then deleting is what backspace does.
pub proof fn law_left_and_delete_is_backspace(v: TuiV, secs: u64, seed: u64)
    requires
        is_editing(v),
        v.edit->0.at > 0,
    ensures
        struck(struck(v, KeyCode::Left, secs, seed), KeyCode::Delete, secs, seed) == struck(
            v,
            KeyCode::Backspace,
            secs,
            seed,
        ),
{
}

/// The keys for the cursor leave the text as it is. Left and right go by one character and undo each
/// other, but where there is none to go by; home goes to the beginning, and end behind the text.
pub proof fn law_cursor_keys_move_the_cursor(v: TuiV, secs: u64, seed: u64)
    requires
        is_editing(v),
    ensures
        ({
            let e = v.edit->0;
            let left = edited(v, KeyCode::Left, secs, seed);
            let right = edited(v, KeyCode::Right, secs, seed);
            let home = edited(v, KeyCode::Home, secs, seed);
            let end = edited(v, KeyCode::End, secs, seed);
            &&& left.text == e.text && right.text == e.text
            &&& home.text == e.text && end.text == e.text
            &&& home.at == 0 && end.at == e.text.len()
            &&& e.at > 0 ==> left.at == e.at - 1
            &&& e.at == 0 ==> left.at == 0
            &&& e.at < e.text.len() ==> right.at == e.at + 1
            &&& e.at == e.text.len() ==> right.at == e.at
            &&& e.at > 0 ==> struck(
                struck(v, KeyCode::Left, secs, seed),
                KeyCode::Right,
                secs,
                seed,
            ) == v
            &&& e.at < e.text.len() ==> struck(
                struck(v, KeyCode::Right, secs, seed),
                KeyCode::Left,
                secs,
                seed,
            ) == v
        }),
{
    let a = struck(struck(v, KeyCode::Left, secs, seed), KeyCode::Right, secs, seed);
    let b = struck(struck(v, KeyCode::Right, secs, seed), KeyCode::Left, secs, seed);
    assert(v.edit->0.at > 0 ==> a =~= v);
    assert(v.edit->0.at < v.edit->0.text.len() ==> b =~= v);
}

/// In an editor of several lines enter begins a new one, as a character that is typed; in one of a
/// single line it saves the text, and so does control and enter in both, and the tab key in the first.
pub proof fn law_enter_begins_a_line_or_saves(v: TuiV, secs: u64, seed: u64)
    requires
        is_editing(v),
    ensures
        ({
            let e = v.edit->0;
            let enter = pressed(v, down(KeyCode::Enter), secs, seed);
            let ctrl_enter = pressed(
                v,
                Key { code: KeyCode::Enter, ctrl: true, press: true },
                secs,
                seed,
            );
            let tab = pressed(v, down(KeyCode::Tab), secs, seed);
            &&& e.multiline ==> enter == pressed(v, down(KeyCode::Char('\n')), secs, seed)
            &&& !e.multiline ==> enter.0.edit is None
            &&& ctrl_enter.0.edit is None
            &&& !e.multiline ==> ctrl_enter == enter
            &&& e.multiline ==> tab == ctrl_enter
            &&& !e.multiline ==> tab == (v, ActionV::Nothing)
        }),
{
    let e = v.edit->0;
    if !e.multiline {
        assert(pressed(v, down(KeyCode::Tab), secs, seed).0 =~= v);
    }
}

/// While a text is edited nothing but the editor changes, and nothing is left to be done, whatever key
/// it is but one that saves.
pub proof fn law_editing_changes_only_the_editor(v: TuiV, key: Key, secs: u64, seed: u64)
    requires
        v.edit is Some,
        key.code !is Enter,
        key.code !is Tab,
    ensures
        ({
            let (w, act) = pressed(v, key, secs, seed);
            &&& w == (TuiV { edit: w.edit, ..v })
            &&& act is Nothing
            &&& w.edit matches Some(d) ==> d.target == v.edit->0.target && d.multiline
                == v.edit->0.multiline
            &&& w.edit is None <==> key.press && key.code is Esc
            &&& key.ctrl && key.code !is Esc ==> w == v
        }),
{
    assert(pressed(v, key, secs, seed).0 =~= (TuiV {
        edit: pressed(v, key, secs, seed).0.edit,
        ..v
    }));
    if key.ctrl && key.code !is Esc {
        assert(pressed(v, key, secs, seed).0 =~= v);
    }
}

/// A text that is saved is what its field then shows, and nothing else changes.
pub proof fn law_saved_text_is_shown(v: TuiV, f: Field, secs: u64, seed: u64)
    requires
        v.edit matches Some(e) && e.target == EditTarget::Field(f),
        f is Caption || f is Lyrics || f is Out,
    ensures
        ({
            let (w, act) = pressed(
                v,
                Key { code: KeyCode::Enter, ctrl: true, press: true },
                secs,
                seed,
            );
            &&& shown(w.cfg, f) == v.edit->0.text
            &&& forall|g: Field| g != f ==> #[trigger] shown(w.cfg, g) == shown(v.cfg, g)
            &&& w == (TuiV { edit: None, cfg: w.cfg, ..v })
            &&& act is Nothing
        }),
{
}

/// A style of the user's own that is saved is what the field of the style shows, unless it is blank; it
/// replaces the chosen one.
pub proof fn law_saved_style_is_shown(v: TuiV, secs: u64, seed: u64)
    requires
        v.edit matches Some(e) && e.target == EditTarget::Field(Field::Genre) && trimmed(
            e.text,
        ).len() > 0,
    ensures
        ({
            let w = pressed(
                v,
                Key { code: KeyCode::Enter, ctrl: true, press: true },
                secs,
                seed,
            ).0;
            &&& shown(w.cfg, Field::Genre) == v.edit->0.text
            &&& w.cfg.custom_genre()
            &&& w.edit is None
        }),
{
}

/// The text for a number with a fraction is handed on as it was typed, for its own field; the settings
/// wait for what it stands for.
pub proof fn law_typed_number_is_handed_on(v: TuiV, f: Field, secs: u64, seed: u64)
    requires
        v.edit matches Some(e) && e.target == EditTarget::Field(f),
        f is Duration || f is Guidance || f is ArGuidance,
    ensures
        pressed(v, Key { code: KeyCode::Enter, ctrl: true, press: true }, secs, seed) == (
            TuiV { edit: None, ..v },
            ActionV::SetNumber(f, v.edit->0.text),
        ),
{
}

/// A name that is typed and saved keeps the settings under it: the list shows the names anew, what is
/// found under the name are the settings, and all other presets stay as they were. A blank name saves
/// nothing.
pub proof fn law_saved_preset_is_found(v: TuiV, other: Seq<char>, secs: u64, seed: u64)
    requires
        v.edit matches Some(e) && e.target is PresetName,
        rising(v.presets),
    ensures
        ({
            let name = trimmed(v.edit->0.text);
            let (w, act) = pressed(
                v,
                Key { code: KeyCode::Enter, ctrl: true, press: true },
                secs,
                seed,
            );
            &&& w.edit is None
            &&& w.cfg == v.cfg
            &&& name.len() > 0 ==> found(w.presets, name) == Some(v.cfg)
            &&& name.len() > 0 ==> w.preset_names == names_of(w.presets)
            &&& name.len() > 0 ==> w.status_msg == Some("saved preset '"@ + name + "'"@)
            &&& name.len() > 0 ==> act is SavePresets
            &&& other != name ==> found(w.presets, other) == found(v.presets, other)
            &&& name.len() == 0 ==> w == (TuiV { edit: None, ..v }) && act is Nothing
        }),
{
    law_load_gives_back_what_was_saved(v.presets, trimmed(v.edit->0.text), v.cfg, other);
}

// --- on the tabs with fields -----------------------------------------------------------------------

/// Whether no editor is open and a field is selected.
pub open spec fn at_field(v: TuiV) -> bool {
    v.edit is None && v.on_field()
}

/// The selected field.
pub open spec fn field_at(v: TuiV) -> Field {
    v.tab.list()[v.selected as int]
}

/// Down goes to the next field and up to the one before; each undoes the other, but at the ends, where
/// both stay. Nothing else changes.
pub proof fn law_up_and_down_go_by_one_field(v: TuiV, secs: u64, seed: u64)
    requires
        at_field(v),
    ensures
        ({
            let up = struck(v, KeyCode::Up, secs, seed);
            let next = struck(v, KeyCode::Down, secs, seed);
            let more = v.selected + 1 < v.tab.list().len();
            &&& up == (TuiV { selected: up.selected, ..v })
            &&& next == (TuiV { selected: next.selected, ..v })
            &&& more ==> next.selected == v.selected + 1 && struck(next, KeyCode::Up, secs, seed) == v
            &&& !more ==> next == v
            &&& v.selected > 0 ==> up.selected == v.selected - 1 && struck(
                up,
                KeyCode::Down,
                secs,
                seed,
            ) == v
            &&& v.selected == 0 ==> up == v
        }),
{
    let up = struck(v, KeyCode::Up, secs, seed);
    let next = struck(v, KeyCode::Down, secs, seed);
    assert(up =~= (TuiV { selected: up.selected, ..v }));
    assert(next =~= (TuiV { selected: next.selected, ..v }));
    assert(struck(next, KeyCode::Up, secs, seed) =~= (TuiV {
        selected: struck(next, KeyCode::Up, secs, seed).selected,
        ..v
    }));
    assert(struck(up, KeyCode::Down, secs, seed) =~= (TuiV {
        selected: struck(up, KeyCode::Down, secs, seed).selected,
        ..v
    }));
}

/// The letters `h`, `j`, `k` and `l` do what the arrow keys do.
pub proof fn law_letters_are_arrows(v: TuiV, secs: u64, seed: u64)
    requires
        v.edit is None,
    ensures
        pressed(v, down(KeyCode::Char('k')), secs, seed) == pressed(v, down(KeyCode::Up), secs, seed),
        pressed(v, down(KeyCode::Char('j')), secs, seed) == pressed(v, down(KeyCode::Down), secs, seed),
        v.tab.list().len() > 0 ==> pressed(v, down(KeyCode::Char('h')), secs, seed) == pressed(
            v,
            down(KeyCode::Left),
            secs,
            seed,
        ),
        v.tab.list().len() > 0 ==> pressed(v, down(KeyCode::Char('l')), secs, seed) == pressed(
            v,
            down(KeyCode::Right),
            secs,
            seed,
        ),
{
}

/// Right adjusts the selected field by a step up and left by a step down; for a number with a fraction
/// the step is handed on. Only the settings change.
pub proof fn law_arrows_step_the_selected_field(v: TuiV, secs: u64, seed: u64)
    requires
        at_field(v),
    ensures
        ({
            let f = field_at(v);
            let right = pressed(v, down(KeyCode::Right), secs, seed);
            let left = pressed(v, down(KeyCode::Left), secs, seed);
            &&& f.sort() == Kind::Float ==> right == (v, ActionV::Adjust(f, 1)) && left == (
                v,
                ActionV::Adjust(f, -1i64),
            )
            &&& f.sort() != Kind::Float ==> right == (
                TuiV { cfg: adjusted(v.cfg, v.paths, f, 1, None), ..v },
                ActionV::Nothing,
            )
            &&& f.sort() != Kind::Float ==> left == (
                TuiV { cfg: adjusted(v.cfg, v.paths, f, -1, None), ..v },
                ActionV::Nothing,
            )
        }),
{
}

/// On a field with choices right and space go on to the next choice and left goes back to the one
/// before, around the ends; enter goes on too, but where it opens the style of the user's own.
pub proof fn law_arrows_go_through_the_choices(v: TuiV, secs: u64, seed: u64)
    requires
        at_field(v),
        field_at(v).sort() == Kind::Select,
        told_apart(v.paths, field_at(v)),
        settled_on(v.cfg, v.paths, field_at(v)),
    ensures
        ({
            let f = field_at(v);
            let n = slots(v.paths, f);
            let i = picked(v.cfg, v.paths, f);
            let right = struck(v, KeyCode::Right, secs, seed);
            let left = struck(v, KeyCode::Left, secs, seed);
            &&& picked(right.cfg, v.paths, f) == (i + 1) % n
            &&& picked(left.cfg, v.paths, f) == (i - 1) % n
            &&& struck(v, KeyCode::Char(' '), secs, seed) == right
            &&& !(f is Genre && v.cfg.custom_genre()) ==> struck(v, KeyCode::Enter, secs, seed) == right
        }),
{
    law_cycling_moves_the_index(v.cfg, v.paths, field_at(v), 1);
    law_cycling_moves_the_index(v.cfg, v.paths, field_at(v), -1);
}

/// On a switch space and enter turn it: off where it was on, and on where it was off, unless it is the
/// overlap while the memory saver is on. The arrow keys leave it as it is.
pub proof fn law_space_and_enter_turn_a_switch(v: TuiV, secs: u64, seed: u64)
    requires
        at_field(v),
        field_at(v) is MemSaver || field_at(v) is PipelineOverlap,
    ensures
        ({
            let f = field_at(v);
            let w = struck(v, KeyCode::Enter, secs, seed);
            &&& struck(v, KeyCode::Char(' '), secs, seed) == w
            &&& f is MemSaver ==> w.cfg.mem_saver == !v.cfg.mem_saver
            &&& f is PipelineOverlap && !v.cfg.mem_saver ==> w.cfg.pipeline_overlap
                == !v.cfg.pipeline_overlap
            &&& v.cfg.mem_saver && f is PipelineOverlap ==> !w.cfg.pipeline_overlap
            &&& w.cfg.mem_saver ==> !w.cfg.pipeline_overlap
            &&& !w.cfg.mem_saver && f is MemSaver ==> w.cfg.pipeline_overlap
                == v.cfg.pipeline_overlap
            &&& w == (TuiV {
                cfg: ConfigV {
                    mem_saver: w.cfg.mem_saver,
                    pipeline_overlap: w.cfg.pipeline_overlap,
                    ..v.cfg
                },
                ..v
            })
            &&& f is PipelineOverlap ==> w.cfg.mem_saver == v.cfg.mem_saver
            &&& struck(v, KeyCode::Left, secs, seed) == v
            &&& struck(v, KeyCode::Right, secs, seed) == v
        }),
{
    let w = struck(v, KeyCode::Enter, secs, seed);
    assert(w =~= (TuiV {
        cfg: ConfigV {
            mem_saver: w.cfg.mem_saver,
            pipeline_overlap: w.cfg.pipeline_overlap,
            ..v.cfg
        },
        ..v
    }));
    assert(struck(v, KeyCode::Left, secs, seed) =~= v);
    assert(struck(v, KeyCode::Right, secs, seed) =~= v);
}

/// On a number or a text enter opens an editor on what the field shows, with the cursor behind it; only
/// the lyrics have several lines.
pub proof fn law_enter_opens_what_is_shown(v: TuiV, secs: u64, seed: u64)
    requires
        at_field(v),
        field_at(v).sort() != Kind::Select,
        field_at(v).sort() != Kind::Bool,
    ensures
        ({
            let f = field_at(v);
            let (w, act) = pressed(v, down(KeyCode::Enter), secs, seed);
            &&& w.edit == Some(
                EditorV {
                    target: EditTarget::Field(f),
                    text: shown(v.cfg, f),
                    at: shown(v.cfg, f).len() as int,
                    multiline: f is Lyrics,
                },
            )
            &&& w == (TuiV { edit: w.edit, ..v })
            &&& act is Nothing
        }),
{
    assert(struck(v, KeyCode::Enter, secs, seed) =~= (TuiV {
        edit: struck(v, KeyCode::Enter, secs, seed).edit,
        ..v
    }));
}

/// On a style of the user's own enter opens an editor on it.
pub proof fn law_enter_opens_the_own_style(v: TuiV, secs: u64, seed: u64)
    requires
        at_field(v),
        field_at(v) is Genre,
        v.cfg.custom_genre(),
    ensures
        edited(v, KeyCode::Enter, secs, seed) == (EditorV {
            target: EditTarget::Field(Field::Genre),
            text: v.cfg.genre_custom,
            at: v.cfg.genre_custom.len() as int,
            multiline: false,
        }),
        struck(v, KeyCode::Enter, secs, seed).cfg == v.cfg,
{
}

// --- on every tab ----------------------------------------------------------------------------------

/// The digits from one to six lead to the tabs in their order, with the first row selected; the other
/// digits lead nowhere.
pub proof fn law_digits_lead_to_the_tabs(v: TuiV, secs: u64, seed: u64)
    requires
        v.edit is None,
    ensures
        struck(v, KeyCode::Char('1'), secs, seed) == (TuiV { tab: Tab::Song, selected: 0, ..v }),
        struck(v, KeyCode::Char('2'), secs, seed) == (TuiV { tab: Tab::Advanced, selected: 0, ..v }),
        struck(v, KeyCode::Char('3'), secs, seed) == (TuiV { tab: Tab::Components, selected: 0, ..v }),
        struck(v, KeyCode::Char('4'), secs, seed) == (TuiV { tab: Tab::Run, selected: 0, ..v }),
        struck(v, KeyCode::Char('5'), secs, seed) == (TuiV { tab: Tab::Presets, selected: 0, ..v }),
        struck(v, KeyCode::Char('6'), secs, seed) == (TuiV { tab: Tab::Help, selected: 0, ..v }),
        struck(v, KeyCode::Char('?'), secs, seed) == (TuiV { tab: Tab::Help, selected: 0, ..v }),
        struck(v, KeyCode::Char('7'), secs, seed) == v,
        struck(v, KeyCode::Char('8'), secs, seed) == v,
        struck(v, KeyCode::Char('9'), secs, seed) == v,
{
    assert('1' as int == 49 && '2' as int == 50 && '3' as int == 51);
    assert('4' as int == 52 && '5' as int == 53 && '6' as int == 54);
    assert('7' as int == 55 && '8' as int == 56 && '9' as int == 57);
}

/// The tab key leads from each tab to the next and from the last to the first, and the tab key back the
/// other way.
pub proof fn law_tab_leads_to_the_next(v: TuiV, secs: u64, seed: u64)
    requires
        v.edit is None,
    ensures
        ({
            let next = struck(v, KeyCode::Tab, secs, seed);
            &&& next == (TuiV { tab: next.tab, selected: 0, ..v })
            &&& v.tab is Song ==> next.tab is Advanced
            &&& v.tab is Advanced ==> next.tab is Components
            &&& v.tab is Components ==> next.tab is Run
            &&& v.tab is Run ==> next.tab is Presets
            &&& v.tab is Presets ==> next.tab is Help
            &&& v.tab is Help ==> next.tab is Song
            &&& struck(next, KeyCode::BackTab, secs, seed) == (TuiV { selected: 0, ..v })
        }),
{
    let next = struck(v, KeyCode::Tab, secs, seed);
    let back = struck(next, KeyCode::BackTab, secs, seed);
    assert(back.tab == v.tab);
    assert(back =~= (TuiV { selected: 0, ..v }));
}

/// Escape leads from every other tab than that of help back to the first, and changes nothing else.
pub proof fn law_escape_leads_back(v: TuiV, secs: u64, seed: u64)
    requires
        v.edit is None,
    ensures
        v.tab !is Help ==> struck(v, KeyCode::Esc, secs, seed) == (TuiV { tab: Tab::Song, ..v }),
        v.tab is Help ==> struck(v, KeyCode::Esc, secs, seed) == v,
{
    if v.tab !is Help {
        assert(struck(v, KeyCode::Esc, secs, seed) =~= (TuiV { tab: Tab::Song, ..v }));
    } else {
        assert(struck(v, KeyCode::Esc, secs, seed) =~= v);
    }
}

/// A generation is asked for by `g` on every tab and by enter on that of the run. While one runs, or
/// anything is missing for it, that is said and nothing else happens.
pub proof fn law_generation_is_asked_for(v: TuiV, secs: u64, seed: u64)
    requires
        v.edit is None,
    ensures
        ({
            let (w, act) = pressed(v, down(KeyCode::Char('g')), secs, seed);
            &&& v.tab is Run ==> pressed(v, down(KeyCode::Enter), secs, seed) == (w, act)
            &&& act is Launch <==> v.job != Some(Status::Running) && v.cfg.faults(v.paths).len() == 0
            &&& act !is Launch ==> act is Nothing && w.status_msg is Some
            &&& v.job == Some(Status::Running) ==> w.status_msg == Some(
                "already generating — press a to abort"@,
            )
            &&& v.job != Some(Status::Running) && v.cfg.faults(v.paths).len() > 0 ==> w.status_msg
                == Some("cannot generate: "@ + joined(v.cfg.faults(v.paths), "; "@))
            &&& w == (TuiV { status_msg: w.status_msg, ..v })
            &&& act is Launch ==> w == v
        }),
{
    let w = pressed(v, down(KeyCode::Char('g')), secs, seed).0;
    assert(w =~= (TuiV { status_msg: w.status_msg, ..v }));
}

/// Outside of an editor it makes no difference whether control is held, but for the keys that quit.
pub proof fn law_control_makes_no_difference(v: TuiV, code: KeyCode, secs: u64, seed: u64)
    requires
        v.edit is None,
        code != KeyCode::Char('q') && code != KeyCode::Char('c'),
    ensures
        pressed(v, Key { code, ctrl: true, press: true }, secs, seed) == pressed(
            v,
            down(code),
            secs,
            seed,
        ),
        struck(v, KeyCode::Char('q'), secs, seed) == v,
        struck(v, KeyCode::Char('c'), secs, seed) == v,
{
    assert(struck(v, KeyCode::Char('q'), secs, seed) =~= v);
    assert(struck(v, KeyCode::Char('c'), secs, seed) =~= v);
}

/// An abort is asked for by `a` on every tab and by `x` on that of the run, where there is a job, and
/// changes nothing by itself.
pub proof fn law_abort_is_asked_for(v: TuiV, secs: u64, seed: u64)
    requires
        v.edit is None,
    ensures
        pressed(v, down(KeyCode::Char('a')), secs, seed).0 == v,
        pressed(v, down(KeyCode::Char('a')), secs, seed).1 is Abort <==> v.job is Some,
        v.job is None ==> pressed(v, down(KeyCode::Char('a')), secs, seed).1 is Nothing,
        v.tab is Run ==> pressed(v, down(KeyCode::Char('x')), secs, seed) == pressed(
            v,
            down(KeyCode::Char('a')),
            secs,
            seed,
        ),
{
}

/// Resetting restores the default settings with the components that were found. It keeps the output
/// path, but on the tab of the presets, where it gives a new one and says so.
pub proof fn law_reset_restores_the_defaults(v: TuiV, secs: u64, seed: u64)
    requires
        v.edit is None,
    ensures
        ({
            let (w, act) = pressed(v, down(KeyCode::Char('r')), secs, seed);
            let out = if v.tab is Presets {
                out_named(secs)
            } else {
                v.cfg.out
            };
            let d = crate::config::defaults(out);
            &&& act is Nothing
            &&& w.cfg == (ConfigV {
                lm_gguf: w.cfg.lm_gguf,
                flow_gguf: w.cfg.flow_gguf,
                depth_gguf: w.cfg.depth_gguf,
                ..d
            })
            &&& v.paths.language_model matches Some(p) ==> w.cfg.lm_gguf == p
            &&& v.paths.flow_transformer matches Some(p) ==> w.cfg.flow_gguf == p
            &&& v.paths.depth_decoder matches Some(p) ==> w.cfg.depth_gguf == p
            &&& v.paths.language_model is None ==> w.cfg.lm_gguf == d.lm_gguf
            &&& v.paths.flow_transformer is None ==> w.cfg.flow_gguf == d.flow_gguf
            &&& v.paths.depth_decoder is None ==> w.cfg.depth_gguf == d.depth_gguf
            &&& w == (TuiV { cfg: w.cfg, status_msg: w.status_msg, ..v })
            &&& v.tab !is Presets ==> w.status_msg == v.status_msg
            &&& v.tab is Presets ==> w.status_msg == Some("reset to defaults"@)
        }),
{
    let w = pressed(v, down(KeyCode::Char('r')), secs, seed).0;
    assert(w =~= (TuiV { cfg: w.cfg, status_msg: w.status_msg, ..v }));
}

// --- on the tab of the run -------------------------------------------------------------------------

/// On the tab of the run up goes back in the log by one line and down forward by one; end goes to its
/// end. Nothing else changes.
pub proof fn law_log_is_scrolled_by_one_line(v: TuiV, secs: u64, seed: u64)
    requires
        v.edit is None,
        v.tab is Run,
    ensures
        ({
            let up = struck(v, KeyCode::Up, secs, seed);
            let next = struck(v, KeyCode::Down, secs, seed);
            &&& v.log_offset < usize::MAX ==> up == (TuiV {
                log_offset: (v.log_offset + 1) as usize,
                ..v
            })
            &&& v.log_offset < usize::MAX ==> struck(up, KeyCode::Down, secs, seed) == v
            &&& v.log_offset > 0 ==> next == (TuiV { log_offset: (v.log_offset - 1) as usize, ..v })
            &&& v.log_offset == 0 ==> next == v
            &&& struck(v, KeyCode::End, secs, seed) == (TuiV { log_offset: 0, ..v })
        }),
{
    let up = struck(v, KeyCode::Up, secs, seed);
    assert(v.log_offset < usize::MAX ==> struck(up, KeyCode::Down, secs, seed) =~= v);
    assert(v.log_offset == 0 ==> struck(v, KeyCode::Down, secs, seed) =~= v);
}

/// On the tab of the run `s` takes the new seed and changes no other setting, and `n` a new output path
/// from the time, for a job that is yet to end.
pub proof fn law_seed_and_output_are_renewed(v: TuiV, secs: u64, seed: u64)
    requires
        v.edit is None,
        v.tab is Run,
    ensures
        struck(v, KeyCode::Char('s'), secs, seed) == (TuiV { cfg: ConfigV { seed, ..v.cfg }, ..v }),
        struck(v, KeyCode::Char('n'), secs, seed) == (TuiV {
            cfg: ConfigV { out: out_named(secs), ..v.cfg },
            finished: false,
            ..v
        }),
{
}

// --- on the tab of the presets ---------------------------------------------------------------------

/// Down goes to the next preset and up to the one before; each undoes the other, but at the ends.
pub proof fn law_up_and_down_go_by_one_preset(v: TuiV, secs: u64, seed: u64)
    requires
        v.edit is None,
        v.tab is Presets,
        v.preset_idx < v.preset_names.len() <= usize::MAX,
    ensures
        ({
            let up = struck(v, KeyCode::Up, secs, seed);
            let next = struck(v, KeyCode::Down, secs, seed);
            let more = v.preset_idx + 1 < v.preset_names.len();
            &&& up == (TuiV { preset_idx: up.preset_idx, ..v })
            &&& next == (TuiV { preset_idx: next.preset_idx, ..v })
            &&& more ==> next.preset_idx == v.preset_idx + 1
            &&& !more ==> next == v
            &&& v.preset_idx > 0 ==> up.preset_idx == v.preset_idx - 1
            &&& v.preset_idx == 0 ==> up == v
        }),
{
    let up = struck(v, KeyCode::Up, secs, seed);
    let next = struck(v, KeyCode::Down, secs, seed);
    assert(up =~= (TuiV { preset_idx: up.preset_idx, ..v }));
    assert(next =~= (TuiV { preset_idx: next.preset_idx, ..v }));
}

/// Enter loads what is found under the selected name, and says so; nothing else changes.
pub proof fn law_enter_loads_the_selected_preset(v: TuiV, secs: u64, seed: u64)
    requires
        v.edit is None,
        v.tab is Presets,
        v.preset_idx < v.preset_names.len(),
    ensures
        ({
            let name = v.preset_names[v.preset_idx as int];
            let w = struck(v, KeyCode::Enter, secs, seed);
            &&& found(v.presets, name) matches Some(c) ==> w == (TuiV {
                cfg: c,
                status_msg: Some("loaded preset '"@ + name + "'"@),
                ..v
            })
            &&& found(v.presets, name) is None ==> w == v
        }),
{
}

/// The key `d` deletes the selected preset and no other, and asks for the rest to be written.
pub proof fn law_selected_preset_is_deleted(v: TuiV, other: Seq<char>, secs: u64, seed: u64)
    requires
        v.edit is None,
        v.tab is Presets,
        v.preset_idx < v.preset_names.len(),
        rising(v.presets),
    ensures
        ({
            let name = v.preset_names[v.preset_idx as int];
            let (w, act) = pressed(v, down(KeyCode::Char('d')), secs, seed);
            &&& found(w.presets, name) is None
            &&& other != name ==> found(w.presets, other) == found(v.presets, other)
            &&& w.preset_names == names_of(w.presets)
            &&& w.preset_names.len() > 0 ==> w.preset_idx < w.preset_names.len() || w.preset_names.len()
                > usize::MAX
            &&& w.cfg == v.cfg
            &&& w.status_msg == Some("deleted preset '"@ + name + "'"@)
            &&& act is SavePresets
        }),
{
    law_deleted_is_gone(v.presets, v.preset_names[v.preset_idx as int], other);
}

/// The key `s` opens an empty editor of one line for the name of a preset.
pub proof fn law_name_of_a_preset_is_asked_for(v: TuiV, secs: u64, seed: u64)
    requires
        v.edit is None,
        v.tab is Presets,
    ensures
        ({
            let w = struck(v, KeyCode::Char('s'), secs, seed);
            &&& w == (TuiV { edit: w.edit, ..v })
            &&& w.edit matches Some(e) && e.target is PresetName && e.text.len() == 0 && e.at == 0
                && !e.multiline
        }),
{
    let w = struck(v, KeyCode::Char('s'), secs, seed);
    assert(w =~= (TuiV { edit: w.edit, ..v }));
}

// --- as time passes --------------------------------------------------------------------------------

/// What is seen of the job is what is shown of it. Its end is said in words once, and its row is asked
/// for then and only then.
pub proof fn law_what_is_seen_is_shown(v: TuiV, status: Status, lines: Seq<Seq<char>>)
    requires
        v.job is Some,
    ensures
        ({
            let (w, act) = ticked(v, Some((status, lines)));
            let ended = status != Status::Running && !v.finished;
            &&& w.job == Some(status)
            &&& w.log == lines
            &&& act is Record <==> ended
            &&& !(act is Record) ==> act is Nothing
            &&& ended ==> w.finished && w.status_msg == Some(status.shown())
            &&& !ended ==> w.finished == v.finished && w.status_msg == v.status_msg
            &&& w.cfg == v.cfg && w.tab == v.tab && w.edit == v.edit && w.presets == v.presets
        }),
{
}

/// Where there is no job, or nothing is seen of it, only the spinner turns: it counts on.
pub proof fn law_spinner_turns(v: TuiV, seen: Option<(Status, Seq<Seq<char>>)>)
    ensures
        v.spinner < u64::MAX ==> ticked(v, seen).0.spinner == v.spinner + 1,
        v.job is None || seen is None ==> ticked(v, seen).0 == (TuiV {
            spinner: ticked(v, seen).0.spinner,
            ..v
        }),
        v.job is None || seen is None ==> ticked(v, seen).1 is Nothing,
{
    if v.job is None || seen is None {
        assert(ticked(v, seen).0 =~= (TuiV { spinner: ticked(v, seen).0.spinner, ..v }));
    }
}

/// A job that was started is the one that runs: its log is empty and seen from its end, nothing can be
/// generated beside it, and its end will be noted, whatever job there was before. The settings stay.
pub proof fn law_launch_begins_a_new_run(v: TuiV, status: Status, lines: Seq<Seq<char>>)
    ensures
        ({
            let w = launching(v);
            &&& w.job == Some(Status::Running)
            &&& w.tab is Run && w.log.len() == 0 && w.log_offset == 0 && w.status_msg is None
            &&& generating(w).1 !is Launch
            &&& ticked(w, Some((status, lines))).1 is Record <==> status != Status::Running
            &&& w.cfg == v.cfg && w.presets == v.presets && w.history == v.history && w.paths == v.paths
            &&& w.selected == v.selected && w.edit == v.edit && w.should_quit == v.should_quit
        }),
{
}

/// The interface starts on the first field, with the settings of a new song and the components that were
/// found; all presets are listed, nothing runs, and nothing was said.
pub proof fn law_start_is_a_new_song(
    paths: PathsV,
    presets: Seq<PresetV>,
    history: Seq<HistoryV>,
    secs: u64,
    seed: u64,
)
    ensures
        ({
            let v = starting(paths, presets, history, secs);
            &&& v.tab is Song && v.selected == 0 && v.edit is None
            &&& v.job is None && !v.should_quit && !v.finished && v.status_msg is None
            &&& v.log.len() == 0 && v.log_offset == 0 && v.spinner == 0
            &&& v.presets == presets && v.preset_names == names_of(presets) && v.preset_idx == 0
            &&& v.history == history && v.paths == paths
            &&& v.cfg == struck(
                TuiV { cfg: ConfigV { out: out_named(secs), ..v.cfg }, ..v },
                KeyCode::Char('r'),
                secs,
                seed,
            ).cfg
            &&& v.cfg.out == out_named(secs)
        }),
{
}

} // verus!
