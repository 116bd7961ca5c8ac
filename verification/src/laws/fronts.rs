//! What holds of the terminal interface and the web interface, and of both alike.

use vstd::prelude::*;

use crate::clock::out_named;
use crate::config::{defaults, ConfigV};
use crate::detect::PathsV;
use crate::edit::{amount, bounded, choices, count, range, shown, typed_in};
use crate::field::{field_named, law_ids_are_distinct, Field, Kind};
use crate::json::{int_member, member_or_empty};
use crate::laws::settings::{
    law_adjusting_keeps_sane, law_choosing_keeps_sane, law_defaults_are_sane, law_sanitized_is_sane,
    law_shown_value_reads_back, law_toggling_keeps_sane, law_typing_keeps_sane, sane,
};
use crate::path::{expanded, under};
use crate::presets::{
    found, law_load_gives_back_what_was_saved, law_presets_stay_in_order, lemma_spot, loaded, put,
    rising, spot, without, PresetV,
};
use crate::runner::{Job, Status};
use crate::text::{ends, trimmed};
use crate::tui::{
    committing, generating, opening, pressed, resetting, stepping, tab_after, takes, ticked,
    with_found, ActionV, EditTarget, Key, KeyCode, Tab, TuiV, TABS,
};
use crate::url::{law_sent_path_is_read_back, sent};
use crate::web::{
    answered, download_asked, field_asked, generate_asked, load_asked, param_or_empty, path_of,
    routed, save_asked, status, Method, ReplyV, Request,
};

verus! {

// --- settings stay in range ------------------------------------------------------------------------

/// Whether the settings of all presets are in range.
pub open spec fn all_sane(ps: Seq<PresetV>) -> bool {
    forall|i: int| 0 <= i < ps.len() ==> sane(#[trigger] ps[i].cfg)
}

proof fn lemma_presets_sane(ps: Seq<PresetV>, name: Seq<char>, c: ConfigV)
    requires
        all_sane(ps),
        sane(c),
    ensures
        found(ps, name) matches Some(saved) ==> sane(saved),
        all_sane(put(ps, name, c)),
        all_sane(without(ps, name)),
{
    lemma_spot(ps, name);
    let k = spot(ps, name);
    let more = put(ps, name, c);
    assert forall|i: int| 0 <= i < more.len() implies sane(#[trigger] more[i].cfg) by {
        if i < k {
            assert(more[i] == ps[i]);
        } else if i > k {
            if more.len() == ps.len() {
                assert(more[i] == ps[i]);
            } else {
                assert(more[i] == ps[i - 1]);
            }
        }
    }
    let less = without(ps, name);
    assert forall|i: int| 0 <= i < less.len() implies sane(#[trigger] less[i].cfg) by {
        if less.len() == ps.len() || i < k {
            assert(less[i] == ps[i]);
        } else {
            assert(less[i] == ps[i + 1]);
        }
    }
}

/// Presets that are read from disk, whatever is there, are in order, and their settings in range.
pub proof fn law_loaded_presets_are_sane(entries: Seq<PresetV>)
    ensures
        rising(loaded(entries)),
        all_sane(loaded(entries)),
    decreases entries.len(),
{
    if entries.len() > 0 {
        let e = entries.last();
        let init = loaded(entries.drop_last());
        law_loaded_presets_are_sane(entries.drop_last());
        law_sanitized_is_sane(e.cfg);
        law_presets_stay_in_order(init, e.name, e.cfg.sanitized());
        lemma_presets_sane(init, e.name, e.cfg.sanitized());
    }
}

/// No key takes settings or presets that are in range out of it.
pub proof fn law_keys_keep_settings_sane(v: TuiV, key: Key, secs: u64, seed: u64)
    requires
        v.wf(),
        takes(v, key),
        sane(v.cfg),
        all_sane(v.presets),
    ensures
        sane(pressed(v, key, secs, seed).0.cfg),
        all_sane(pressed(v, key, secs, seed).0.presets),
{
    let code = key.code;
    if let Some(e) = v.edit {
        if let EditTarget::Field(f) = e.target {
            law_typing_keeps_sane(v.cfg, f, e.text, None);
        }
        lemma_presets_sane(v.presets, trimmed(e.text), v.cfg);
    }
    law_defaults_are_sane(v.cfg.out);
    law_defaults_are_sane(out_named(secs));
    lemma_found_keeps_sane(defaults(v.cfg.out), v.paths);
    lemma_found_keeps_sane(defaults(out_named(secs)), v.paths);
    if v.tab.list().len() > 0 {
        let f = v.tab.list()[v.selected as int];
        law_adjusting_keeps_sane(v.cfg, v.paths, f, 1, None);
        law_adjusting_keeps_sane(v.cfg, v.paths, f, -1, None);
        law_toggling_keeps_sane(v.cfg, f);
    }
    if v.preset_idx < v.preset_names.len() {
        lemma_presets_sane(v.presets, v.preset_names[v.preset_idx as int], v.cfg);
    }
    lemma_same_numbers(v.cfg, ConfigV { out: out_named(secs), ..v.cfg });
    lemma_same_numbers(v.cfg, ConfigV { seed, ..v.cfg });
}

proof fn lemma_same_numbers(c: ConfigV, d: ConfigV)
    requires
        sane(c),
        d == (ConfigV {
            out: d.out,
            seed: d.seed,
            lm_gguf: d.lm_gguf,
            flow_gguf: d.flow_gguf,
            depth_gguf: d.depth_gguf,
            ..c
        }),
    ensures
        sane(d),
{
    assert forall|f: Field| #[trigger] bounded(f) implies range(f).0
        <= count(d, f) <= range(f).1 by {
        assert(count(d, f) == count(c, f));
    }
}

proof fn lemma_found_keeps_sane(c: ConfigV, paths: PathsV)
    requires
        sane(c),
    ensures
        sane(with_found(c, paths)),
{
    lemma_same_numbers(c, with_found(c, paths));
}

/// No request takes settings or presets that are in range out of it.
pub proof fn law_requests_keep_settings_sane(
    c: ConfigV,
    paths: PathsV,
    job: Option<&Job>,
    presets: Seq<PresetV>,
    req: Request,
    seed: u64,
)
    requires
        sane(c),
        all_sane(presets),
    ensures
        sane(answered(c, paths, job, presets, req, seed).0),
        answered(c, paths, job, presets, req, seed).1 matches ReplyV::Save(p) ==> all_sane(p),
{
    let body = req.body@;
    let id = member_or_empty(body, "id"@);
    let value = member_or_empty(body, "value"@);
    let name = member_or_empty(body, "name"@);
    if let Some(f) = field_named(id) {
        law_adjusting_keeps_sane(c, paths, f, 1, None);
        law_adjusting_keeps_sane(c, paths, f, -1, None);
        law_toggling_keeps_sane(c, f);
        law_typing_keeps_sane(c, f, value, None);
        let i = match int_member(body, "index"@) {
            Some(i) => i as int,
            None => 0,
        };
        law_choosing_keeps_sane(
            c,
            paths,
            f,
            if i < 0 {
                choices(paths, f).len() as int + 1
            } else {
                i
            },
        );
    }
    lemma_same_numbers(c, ConfigV { seed, ..c });
    law_defaults_are_sane(c.out);
    lemma_presets_sane(presets, name, c);
    lemma_presets_sane(presets, trimmed(name), c);
}

// --- the terminal interface ------------------------------------------------------------------------

/// Escape closes an editor and drops what was typed: nothing else changes.
pub proof fn law_escape_cancels(v: TuiV, key: Key, secs: u64, seed: u64)
    requires
        v.edit is Some,
        key.press,
        key.code is Esc,
    ensures
        pressed(v, key, secs, seed) == (TuiV { edit: None, ..v }, ActionV::Nothing),
{
}

/// A key that is let go does nothing.
pub proof fn law_release_does_nothing(v: TuiV, key: Key, secs: u64, seed: u64)
    requires
        !key.press,
    ensures
        pressed(v, key, secs, seed) == (v, ActionV::Nothing),
{
}

/// No key starts a job while one runs, or while anything is missing for it.
pub proof fn law_keys_launch_only_what_can_run(v: TuiV, key: Key, secs: u64, seed: u64)
    requires
        pressed(v, key, secs, seed).1 is Launch,
    ensures
        !v.moving(),
        v.cfg.faults(v.paths).len() == 0,
        pressed(v, key, secs, seed).0 == v,
{
}

/// The interface is left only by control and `q` or `c`, and a running job is aborted with it.
pub proof fn law_quitting_aborts(v: TuiV, key: Key, secs: u64, seed: u64)
    requires
        !v.should_quit,
    ensures
        pressed(v, key, secs, seed).0.should_quit <==> (key.press && v.edit is None && key.ctrl && (
        key.code == KeyCode::Char('q') || key.code == KeyCode::Char('c'))),
        pressed(v, key, secs, seed).0.should_quit && v.moving() ==> pressed(
            v,
            key,
            secs,
            seed,
        ).1 is Abort,
{
}

/// Going on by a number of tabs and then back by as many leads to the tab where it began, and so
/// does going on six times.
pub proof fn law_tabs_go_around(tab: Tab, dir: int)
    ensures
        tab_after(tab_after(tab, dir), -dir) == tab,
        tab_after(tab, 6) == tab,
{
    let i = (tab.place() + dir) % 6;
    assert(0 <= i < 6);
    assert(TABS@[i].place() == i);
    assert((i - dir) % 6 == tab.place());
    assert(TABS@[tab.place()] == tab);
}

/// Resetting keeps the output path, but on the tab of the presets.
pub proof fn law_reset_keeps_the_output(v: TuiV, secs: u64)
    requires
        v.tab !is Presets,
    ensures
        resetting(v, secs).cfg.out == v.cfg.out,
        resetting(v, secs).presets == v.presets,
{
}

/// Opening an editor on a field and saving it at once leaves the settings as they were; what is
/// shown of a number with a fraction is handed back as it was shown.
pub proof fn law_saving_what_was_opened_changes_nothing(v: TuiV, f: Field)
    requires
        v.edit is None,
        sane(v.cfg),
        f.sort() != Kind::Select,
    ensures
        committing(opening(v, f)) == if f.sort() == Kind::Float {
            (v, ActionV::SetNumber(f, shown(v.cfg, f)))
        } else {
            (v, ActionV::Nothing)
        },
{
    law_shown_value_reads_back(v.cfg, f);
    if f.sort() != Kind::Float {
        assert(typed_in(v.cfg, f, shown(v.cfg, f), None) == typed_in(
            v.cfg,
            f,
            shown(v.cfg, f),
            Some(amount(v.cfg, f)),
        ));
    }
    assert(committing(opening(v, f)).0 =~= v);
}

/// The end of a job is noted once: whatever is seen of it later, its row is not asked for again.
pub proof fn law_end_is_noted_once(
    v: TuiV,
    seen: Option<(Status, Seq<Seq<char>>)>,
    later: Option<(Status, Seq<Seq<char>>)>,
)
    requires
        ticked(v, seen).1 is Record,
    ensures
        !v.finished,
        ticked(v, seen).0.finished,
        ticked(ticked(v, seen).0, later).1 !is Record,
{
}

// --- the web interface -----------------------------------------------------------------------------

/// A request that is not a post changes nothing and starts nothing.
pub proof fn law_reading_changes_nothing(
    c: ConfigV,
    paths: PathsV,
    job: Option<&Job>,
    presets: Seq<PresetV>,
    req: Request,
    seed: u64,
)
    requires
        req.method != Method::Post,
    ensures
        ({
            let (d, reply) = answered(c, paths, job, presets, req, seed);
            &&& d == c
            &&& reply !is Launch
            &&& reply !is Abort
            &&& reply !is Save
            &&& reply !is Adjust
            &&& reply !is SetNumber
        }),
{
}

/// A job is started only by asking for one, and never while one runs or anything is missing for it:
/// the first is answered with a conflict, the second with what is missing.
pub proof fn law_requests_launch_only_what_can_run(
    c: ConfigV,
    paths: PathsV,
    job: Option<&Job>,
    presets: Seq<PresetV>,
    req: Request,
    seed: u64,
)
    ensures
        ({
            let reply = answered(c, paths, job, presets, req, seed).1;
            let asked = routed(req.method, path_of(req.url@)) is Generate;
            let running = job matches Some(j) && j.status is Running;
            let faults = c.faults(paths);
            &&& reply is Launch <==> asked && !running && faults.len() == 0
            &&& asked && running ==> reply == ReplyV::Failure(409, "already running"@) && status(reply)
                == 409
            &&& asked && !running && faults.len() > 0 ==> reply == ReplyV::Refused(faults) && status(
                reply,
            ) == 400
        }),
{
}

/// Settings that were saved under a name are what loading that name gives back, whatever is set in
/// the meantime; and saving changes no other preset.
pub proof fn law_saved_settings_are_loaded(
    c: ConfigV,
    later: ConfigV,
    presets: Seq<PresetV>,
    name: Seq<char>,
    other: Seq<char>,
)
    requires
        rising(presets),
        trimmed(name).len() > 0,
    ensures
        save_asked(c, presets, name) is Save,
        load_asked(later, save_asked(c, presets, name)->Save_0, trimmed(name)) == c,
        other != trimmed(name) ==> load_asked(later, save_asked(c, presets, name)->Save_0, other)
            == load_asked(later, presets, other),
{
    law_load_gives_back_what_was_saved(presets, trimmed(name), c, other);
}

/// Whatever is asked for, no file is handed out but a sound file under the home directory.
pub proof fn law_download_stays_at_home(
    c: ConfigV,
    paths: PathsV,
    job: Option<&Job>,
    presets: Seq<PresetV>,
    req: Request,
    seed: u64,
)
    ensures
        answered(c, paths, job, presets, req, seed).1 matches ReplyV::Download(p) ==> under(
            p,
            paths.home,
        ) && ends(p, ".wav"@),
{
}

/// The link to an output file under the home directory leads to that file, whatever characters are
/// in its path.
pub proof fn law_download_link_leads_to_the_file(home: Seq<char>, path: Seq<char>)
    requires
        expanded(path, home) == path,
        under(path, home),
        ends(path, ".wav"@),
    ensures
        download_asked(home, param_or_empty("path="@ + sent(path), "path"@)) == ReplyV::Download(path),
{
    law_sent_path_is_read_back(path);
}

/// Resetting through the web restores the default settings and keeps the output path.
pub proof fn law_web_reset_keeps_the_output(
    c: ConfigV,
    paths: PathsV,
    job: Option<&Job>,
    presets: Seq<PresetV>,
    req: Request,
    seed: u64,
)
    requires
        routed(req.method, path_of(req.url@)) is Reset,
    ensures
        answered(c, paths, job, presets, req, seed) == (defaults(c.out), ReplyV::State),
        defaults(c.out).out == c.out,
{
}

// --- both alike ------------------------------------------------------------------------------------

proof fn lemma_named(f: Field)
    ensures
        field_named(f.name()) == Some(f),
{
    law_ids_are_distinct(f, field_named(f.name())->0);
}

/// A step through the web does to a field what the arrow keys do to it.
pub proof fn law_steps_agree(v: TuiV, value: Seq<char>, seed: u64)
    requires
        v.wf(),
        v.on_field(),
    ensures
        ({
            let f = v.tab.list()[v.selected as int];
            let up = stepping(v, 1);
            let down = stepping(v, -1);
            let more = field_asked(v.cfg, v.paths, f.name(), "cycle+"@, value, seed);
            let less = field_asked(v.cfg, v.paths, f.name(), "cycle-"@, value, seed);
            &&& up.0.cfg == more.0
            &&& down.0.cfg == less.0
            &&& up.1 matches ActionV::Adjust(g, d) ==> more.1 == ReplyV::Adjust(g, d)
            &&& down.1 matches ActionV::Adjust(g, d) ==> less.1 == ReplyV::Adjust(g, d)
        }),
{
    lemma_named(v.tab.list()[v.selected as int]);
    reveal_strlit("cycle+");
    reveal_strlit("cycle-");
    assert("cycle+"@[5] != "cycle-"@[5]);
}

/// Both interfaces start a job in the same cases.
pub proof fn law_generating_agrees(v: TuiV)
    ensures
        generating(v).1 is Launch <==> generate_asked(v.cfg, v.paths, v.job) is Launch,
{
}

/// A name typed in an editor saves the same presets as one that is sent.
pub proof fn law_saving_agrees(v: TuiV)
    requires
        v.edit matches Some(e) && e.target is PresetName,
    ensures
        ({
            let name = v.edit->0.text;
            match save_asked(v.cfg, v.presets, name) {
                ReplyV::Save(ps) => committing(v).0.presets == ps && committing(v).1 is SavePresets,
                _ => committing(v).0.presets == v.presets && committing(v).1 is Nothing,
            }
        }),
{
}

} // verus!
