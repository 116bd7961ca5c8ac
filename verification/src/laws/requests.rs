//! What requests are for, and what they are answered.

use vstd::prelude::*;
use vstd::utf8::{
    encode_utf8, encode_utf8_decode_utf8, encode_utf8_valid_utf8, is_ascii_chars_encode_utf8,
};

use crate::config::ConfigV;
use crate::detect::PathsV;
use crate::edit::{choices, picked, selected, shown, toggled, typed_in};
use crate::field::{field_named, law_ids_are_distinct, Field, Kind, HELPS, LABELS};
use crate::history::HistoryV;
use crate::json::{int_member, text_member};
use crate::laws::texts::{lacks, law_first_position, law_pieces_end_at_separators};
use crate::number::{decimal, is_digit, law_decimal_reads_back};
use crate::path::{expanded, under};
use crate::presets::{found, law_deleted_is_gone, names_of, rising, PresetV};
use crate::runner::{Job, Status};
use crate::shell::command_line;
use crate::text::{ends, first_of, split, trimmed};
use crate::url::{
    hex_digit, law_sent_path_is_read_back, param, param_in, percent_decoded, sent, unpercent,
};
use crate::web::{
    answered, download_asked, field_asked, launch_failed, load_asked, log_asked, path_of, query_of,
    routed, save_asked, select_asked, since, state_of, status, Method, ReplyV, Request,
};

verus! {

// --- addresses -------------------------------------------------------------------------------------

proof fn lemma_addresses()
    ensures
        "/"@.len() == 1,
        "/index.html"@.len() == 11 && "/index.html"@[1] == 'i',
        "/api/health"@.len() == 11 && "/api/health"@[1] == 'a' && "/api/health"@[5] == 'h',
        "/api/state"@.len() == 10 && "/api/state"@[1] == 'a' && "/api/state"@[5] == 's',
        "/api/log"@.len() == 8 && "/api/log"@[1] == 'a' && "/api/log"@[5] == 'l',
        "/api/events"@.len() == 11 && "/api/events"@[1] == 'a' && "/api/events"@[5] == 'e',
        "/api/download"@.len() == 13 && "/api/download"@[1] == 'a' && "/api/download"@[5] == 'd',
        "/api/field"@.len() == 10 && "/api/field"@[1] == 'a' && "/api/field"@[5] == 'f',
        "/api/select"@.len() == 11 && "/api/select"@[1] == 'a' && "/api/select"@[5] == 's',
        "/api/generate"@.len() == 13 && "/api/generate"@[1] == 'a' && "/api/generate"@[5] == 'g',
        "/api/abort"@.len() == 10 && "/api/abort"@[1] == 'a' && "/api/abort"@[5] == 'a',
        "/api/reset"@.len() == 10 && "/api/reset"@[1] == 'a' && "/api/reset"@[5] == 'r',
        "/api/presets/save"@.len() == 17 && "/api/presets/save"@[1] == 'a',
        "/api/presets/save"@[5] == 'p' && "/api/presets/save"@[13] == 's',
        "/api/presets/load"@.len() == 17 && "/api/presets/load"@[1] == 'a',
        "/api/presets/load"@[5] == 'p' && "/api/presets/load"@[13] == 'l',
        "/api/presets/delete"@.len() == 19 && "/api/presets/delete"@[1] == 'a',
        "/api/presets/delete"@[5] == 'p' && "/api/presets/delete"@[13] == 'd',
{
    reveal_strlit("/");
    reveal_strlit("/index.html");
    reveal_strlit("/api/health");
    reveal_strlit("/api/state");
    reveal_strlit("/api/log");
    reveal_strlit("/api/events");
    reveal_strlit("/api/download");
    reveal_strlit("/api/field");
    reveal_strlit("/api/select");
    reveal_strlit("/api/generate");
    reveal_strlit("/api/abort");
    reveal_strlit("/api/reset");
    reveal_strlit("/api/presets/save");
    reveal_strlit("/api/presets/load");
    reveal_strlit("/api/presets/delete");
}

/// What a request is for is told by its method and its path: each thing that can be asked for has its
/// own, and nothing else leads to it.
pub proof fn law_addresses_lead_to_their_routes(m: Method, path: Seq<char>)
    ensures
        ({
            let r = routed(m, path);
            &&& r is Preflight <==> m is Options
            &&& r is Page <==> m is Get && (path == "/"@ || path == "/index.html"@)
            &&& r is Health <==> m is Get && path == "/api/health"@
            &&& r is State <==> m is Get && path == "/api/state"@
            &&& r is Log <==> m is Get && path == "/api/log"@
            &&& r is Events <==> m is Get && path == "/api/events"@
            &&& r is Download <==> m is Get && path == "/api/download"@
            &&& r is Field <==> m is Post && path == "/api/field"@
            &&& r is Select <==> m is Post && path == "/api/select"@
            &&& r is Generate <==> m is Post && path == "/api/generate"@
            &&& r is Abort <==> m is Post && path == "/api/abort"@
            &&& r is Reset <==> m is Post && path == "/api/reset"@
            &&& r is Save <==> m is Post && path == "/api/presets/save"@
            &&& r is Load <==> m is Post && path == "/api/presets/load"@
            &&& r is Delete <==> m is Post && path == "/api/presets/delete"@
        }),
{
    lemma_addresses();
}

/// An address is cut at its first question mark: before it is the path and behind it the query; without
/// one it is all path.
pub proof fn law_address_is_cut_at_the_question_mark(path: Seq<char>, query: Seq<char>)
    requires
        lacks(path, '?'),
    ensures
        path_of(path) == path,
        query_of(path).len() == 0,
        path_of(path + seq!['?'] + query) == path,
        query_of(path + seq!['?'] + query) == query,
{
    let n = path.len() as int;
    let url = path + seq!['?'] + query;
    assert(path.take(n) =~= path);
    law_first_position(path, '?', n);
    assert(url.take(n) =~= path);
    law_first_position(url, '?', n);
    assert(url.skip(n + 1) =~= query);
}

/// The value of a parameter is what stands behind its key and the equals sign, up to the next
/// ampersand; of several the first counts, and those with other keys are passed over.
pub proof fn law_parameter_is_found(
    key: Seq<char>,
    value: Seq<char>,
    other: Seq<char>,
    rest: Seq<char>,
)
    requires
        lacks(key, '=') && lacks(key, '&') && lacks(value, '&'),
        lacks(other, '=') && lacks(other, '&') && other != key,
    ensures
        param(key + seq!['='] + value, key) == Some(value),
        param(key + seq!['='] + value + seq!['&'] + rest, key) == Some(value),
        param(other + seq!['='] + value + seq!['&'] + rest, key) == param(rest, key),
        param(other + seq!['='] + value, key) is None,
        param(Seq::<char>::empty(), key) is None,
{
    let a = key + seq!['='] + value;
    let b = other + seq!['='] + value;
    lemma_pair(key, value);
    lemma_pair(other, value);
    law_pieces_end_at_separators(a, rest, '&');
    law_pieces_end_at_separators(b, rest, '&');
    law_pieces_end_at_separators(Seq::<char>::empty(), rest, '&');
    assert((seq![a] + split(rest, '&'))[0] == a);
    assert((seq![b] + split(rest, '&'))[0] == b);
    assert((seq![b] + split(rest, '&')).skip(1) =~= split(rest, '&'));
    let none = seq![Seq::<char>::empty()];
    assert(param_in(seq![b].skip(1), key) is None);
    assert(param_in(seq![b], key) == param_in(seq![b].skip(1), key));
    assert(first_of(none[0], '=') == 0);
    assert(param_in(none.skip(1), key) is None);
    assert(param_in(none, key) == param_in(none.skip(1), key));
}

proof fn lemma_pair(key: Seq<char>, value: Seq<char>)
    requires
        lacks(key, '=') && lacks(key, '&') && lacks(value, '&'),
    ensures
        ({
            let a = key + seq!['='] + value;
            &&& lacks(a, '&')
            &&& first_of(a, '=') == key.len()
            &&& a.take(key.len() as int) == key
            &&& a.skip(key.len() as int + 1) == value
        }),
{
    let a = key + seq!['='] + value;
    let n = key.len() as int;
    assert(a.take(n) =~= key);
    assert(a.skip(n + 1) =~= value);
    law_first_position(a, '=', n);
    assert forall|i: int| 0 <= i < a.len() implies #[trigger] a[i] != '&' by {
        if i < n {
            assert(a[i] == key[i]);
        } else if i > n {
            assert(a[i] == value[i - n - 1]);
        }
    }
}

/// A part of the log is asked for from the position that the query names; from the beginning where it
/// names none.
pub proof fn law_position_is_read_from_the_query(n: nat)
    requires
        n <= u64::MAX,
    ensures
        since("since="@ + decimal(n)) == n,
        since(Seq::<char>::empty()) == 0,
{
    reveal_strlit("since=");
    reveal_strlit("since");
    let key = "since"@;
    let d = decimal(n);
    law_decimal_reads_back(n);
    assert(lacks(d, '&')) by {
        assert forall|i: int| 0 <= i < d.len() implies #[trigger] d[i] != '&' by {
            assert(is_digit(d[i]));
        }
    }
    assert("since="@ + d =~= key + seq!['='] + d);
    law_parameter_is_found(key, d, Seq::<char>::empty(), Seq::<char>::empty());
    law_decimal_reads_back(0);
    assert(crate::number::unsigned(Seq::<char>::empty()) is None);
}

// --- percent signs ---------------------------------------------------------------------------------

/// A percent sign and two digits, large or small, stand for the byte that they spell; a plus sign for a
/// blank; and every other byte for itself.
pub proof fn law_percent_pairs_stand_for_bytes(hi: u8, lo: u8, x: u8, rest: Seq<u8>)
    ensures
        hi != 43 && hex_digit(hi) is Some && hex_digit(lo) is Some ==> unpercent(
            seq![37u8, hi, lo] + rest,
        ) == seq![(16 * hex_digit(hi)->0 + hex_digit(lo)->0) as u8] + unpercent(rest),
        unpercent(seq![43u8] + rest) == seq![32u8] + unpercent(rest),
        x != 43 && x != 37 ==> unpercent(seq![x] + rest) == seq![x] + unpercent(rest),
        unpercent(Seq::<u8>::empty()).len() == 0,
{
    assert((seq![37u8, hi, lo] + rest).skip(3) =~= rest);
    assert((seq![43u8] + rest).skip(1) =~= rest);
    assert((seq![x] + rest).skip(1) =~= rest);
}

/// The digits stand for their values, large and small letters for the same.
pub proof fn law_hexadecimal_digits_have_their_values(k: int)
    requires
        0 <= k <= 15,
    ensures
        k <= 9 ==> hex_digit((48 + k) as u8) == Some(k),
        k >= 10 ==> hex_digit((97 + k - 10) as u8) == Some(k),
        k >= 10 ==> hex_digit((65 + k - 10) as u8) == Some(k),
        hex_digit(103) is None && hex_digit(71) is None && hex_digit(47) is None && hex_digit(58)
            is None,
{
}

proof fn lemma_untouched(b: Seq<u8>)
    requires
        forall|i: int| 0 <= i < b.len() ==> #[trigger] b[i] != 37 && b[i] != 43,
    ensures
        unpercent(b) == b,
    decreases b.len(),
{
    if b.len() > 0 {
        assert(b[0] != 37);
        let rest = b.skip(1);
        assert forall|i: int| 0 <= i < rest.len() implies #[trigger] rest[i] != 37 && rest[i]
            != 43 by {
            assert(rest[i] == b[i + 1]);
        }
        lemma_untouched(rest);
        assert(seq![b[0]] + rest =~= b);
    }
}

/// A text of ASCII without percent and plus signs is read as it is.
pub proof fn law_plain_text_is_read_as_it_is(s: Seq<char>)
    requires
        forall|i: int| 0 <= i < s.len() ==> '\0' <= #[trigger] s[i] <= '\u{7f}',
        lacks(s, '%'),
        lacks(s, '+'),
    ensures
        percent_decoded(s) == s,
{
    is_ascii_chars_encode_utf8(s);
    let b = encode_utf8(s);
    assert forall|i: int| 0 <= i < b.len() implies #[trigger] b[i] != 37 && b[i] != 43 by {
        assert(s[i] != '%' && s[i] != '+');
        assert(b[i] == s[i] as u8);
    }
    lemma_untouched(b);
    encode_utf8_valid_utf8(s);
    encode_utf8_decode_utf8(s);
}

// --- what is changed -------------------------------------------------------------------------------

proof fn lemma_named(f: Field)
    ensures
        field_named(f.name()) == Some(f),
{
    law_ids_are_distinct(f, field_named(f.name())->0);
}

proof fn lemma_actions()
    ensures
        "cycle-"@.len() == 6 && "cycle-"@[5] == '-',
        "cycle+"@.len() == 6 && "cycle+"@[5] == '+',
        "toggle"@.len() == 6 && "toggle"@[5] == 'e',
        "reroll"@.len() == 6 && "reroll"@[5] == 'l',
        "set"@.len() == 3,
{
    reveal_strlit("cycle-");
    reveal_strlit("cycle+");
    reveal_strlit("toggle");
    reveal_strlit("reroll");
    reveal_strlit("set");
}

/// What is sent for a field changes that field, as its action says: a text is typed into it, a switch
/// is turned, and only the seed gets a new value. The text for a number with a fraction is handed on.
/// Nothing changes for a field or an action that there is not.
pub proof fn law_field_is_changed_as_asked(
    c: ConfigV,
    paths: PathsV,
    f: Field,
    id: Seq<char>,
    action: Seq<char>,
    value: Seq<char>,
    seed: u64,
)
    ensures
        ({
            let turned = field_asked(c, paths, f.name(), "toggle"@, value, seed);
            let rolled = field_asked(c, paths, f.name(), "reroll"@, value, seed);
            let typed = field_asked(c, paths, f.name(), "set"@, value, seed);
            let fraction = f is Duration || f is Guidance || f is ArGuidance;
            &&& turned == (toggled(c, f), ReplyV::State)
            &&& f is Seed ==> rolled == (ConfigV { seed, ..c }, ReplyV::State)
            &&& !(f is Seed) ==> rolled == (c, ReplyV::State)
            &&& !fraction ==> typed == (typed_in(c, f, value, None), ReplyV::State)
            &&& fraction ==> typed == (c, ReplyV::SetNumber(f, value))
            &&& action != "cycle-"@ && action != "cycle+"@ && action != "toggle"@ && action != "reroll"@
                && action != "set"@ ==> field_asked(c, paths, f.name(), action, value, seed) == (
                c,
                ReplyV::State,
            )
            &&& (forall|g: Field| #[trigger] g.name() != id) ==> field_asked(
                c,
                paths,
                id,
                action,
                value,
                seed,
            ) == (c, ReplyV::State)
        }),
{
    lemma_named(f);
    lemma_actions();
    if forall|g: Field| #[trigger] g.name() != id {
        if let Some(g) = field_named(id) {
            assert(g.name() == id);
        }
    }
}

/// A step that is asked for adjusts a field by one, up or down; for a number with a fraction it is
/// handed on.
pub proof fn law_step_is_taken_as_asked(
    c: ConfigV,
    paths: PathsV,
    f: Field,
    value: Seq<char>,
    seed: u64,
)
    ensures
        ({
            let up = field_asked(c, paths, f.name(), "cycle+"@, value, seed);
            let down = field_asked(c, paths, f.name(), "cycle-"@, value, seed);
            let fraction = f is Duration || f is Guidance || f is ArGuidance;
            &&& fraction ==> up == (c, ReplyV::Adjust(f, 1)) && down == (c, ReplyV::Adjust(f, -1i64))
            &&& !fraction ==> up == (
                crate::edit::adjusted(c, paths, f, 1, None),
                ReplyV::State,
            ) && down == (crate::edit::adjusted(c, paths, f, -1, None), ReplyV::State)
        }),
{
    lemma_named(f);
    lemma_actions();
}

/// A choice that is asked for by its index is the choice of that index; an index below zero is beyond
/// the last choice.
pub proof fn law_choice_is_made_as_asked(c: ConfigV, paths: PathsV, f: Field, i: int)
    requires
        f.sort() == Kind::Select,
    ensures
        i >= 0 ==> select_asked(c, paths, f.name(), i) == selected(c, paths, f, i),
        i < 0 ==> select_asked(c, paths, f.name(), i) == select_asked(
            c,
            paths,
            f.name(),
            choices(paths, f).len() as int + 1,
        ),
{
    lemma_named(f);
}

// --- what is answered ------------------------------------------------------------------------------

/// The status of a response is that of success where what was asked for is done or begun, and that of
/// an error where it is not.
pub proof fn law_responses_have_their_status(why: Seq<char>, code: u16)
    ensures
        status(ReplyV::State) == 200 && status(ReplyV::Page) == 200 && status(ReplyV::Health) == 200,
        status(ReplyV::Launch) == 200 && status(ReplyV::Abort) == 200 && status(ReplyV::Events) == 200,
        status(ReplyV::Download(why)) == 200,
        status(ReplyV::Empty) == 204,
        status(ReplyV::NotFound) == 404,
        status(ReplyV::Failure(code, why)) == code,
        status(ReplyV::Refused(seq![why])) == 400,
        status(launch_failed(why)) == 500,
        launch_failed(why) == ReplyV::Failure(500, "launch failed: "@ + why),
{
}

/// A file is handed out just where it is a sound file under the home directory; else it is refused.
pub proof fn law_only_own_sound_files_are_handed_out(home: Seq<char>, raw: Seq<char>)
    ensures
        ({
            let path = expanded(percent_decoded(raw), home);
            let own = under(path, home) && ends(path, ".wav"@);
            let reply = download_asked(home, raw);
            &&& own ==> reply == ReplyV::Download(path)
            &&& !own ==> reply == ReplyV::Failure(403, "forbidden"@)
        }),
{
}

/// What is told of the log says that the job runs just while it does, and that it went well just where
/// it did; beside it stand the words for its status, its output path and its number.
pub proof fn law_log_tells_how_the_job_stands(j: &Job, cursor: nat)
    ensures
        ({
            let l = log_asked(Some(j), cursor);
            &&& l.running <==> j.status == Status::Running
            &&& l.success <==> j.status == Status::Success
            &&& l.status == j.status.shown()
            &&& l.out == j.out_path@
            &&& l.job_id == j.id
            &&& l.next == j.log@.total()
            &&& l.lines == j.log@.from(cursor)
        }),
        ({
            let l = log_asked(None, cursor);
            &&& !l.running && !l.success && l.status == "idle"@ && l.lines.len() == 0 && l.next == 0
        }),
{
}

/// Each request is answered with what it asks for: nothing that is not asked for is done, and the
/// settings change only where that is asked for.
pub proof fn law_requests_get_what_they_ask_for(
    c: ConfigV,
    paths: PathsV,
    job: Option<&Job>,
    presets: Seq<PresetV>,
    req: Request,
    seed: u64,
)
    ensures
        ({
            let r = routed(req.method, path_of(req.url@));
            let (d, reply) = answered(c, paths, job, presets, req, seed);
            &&& reply is Empty <==> r is Preflight
            &&& reply is Page <==> r is Page
            &&& reply is Health <==> r is Health
            &&& reply is Log <==> r is Log
            &&& reply is NotFound <==> r is Unknown
            &&& reply is Events <==> r is Events && job is Some
            &&& r is Events && job is None ==> reply == ReplyV::Failure(200, "no job"@)
            &&& reply is Abort <==> r is Abort && job is Some
            &&& r is Abort && job is None ==> reply is State
            &&& r is State ==> reply is State
            &&& d != c ==> r is Field || r is Select || r is Reset || r is Load
            &&& reply is Save ==> r is Save || r is Delete
            &&& reply is Adjust || reply is SetNumber ==> r is Field
        }),
{
}

/// A preset is saved under the name that is sent, without the white space around it, and not without a
/// name; it is loaded by its name, and one that there is not changes nothing; what is deleted is gone,
/// and nothing else.
pub proof fn law_presets_are_kept_as_asked(
    c: ConfigV,
    d: ConfigV,
    presets: Seq<PresetV>,
    name: Seq<char>,
    other: Seq<char>,
)
    requires
        rising(presets),
    ensures
        trimmed(name).len() == 0 ==> save_asked(c, presets, name) is State,
        save_asked(c, presets, name) matches ReplyV::Save(ps) ==> load_asked(d, ps, trimmed(name)) == c,
        found(presets, name) matches Some(saved) ==> load_asked(c, presets, name) == saved,
        found(presets, name) is None ==> load_asked(c, presets, name) == c,
        found(crate::presets::without(presets, name), name) is None,
        other != name ==> found(crate::presets::without(presets, name), other) == found(presets, other),
{
    law_deleted_is_gone(presets, name, other);
    crate::presets::law_load_gives_back_what_was_saved(presets, trimmed(name), c, other);
}

/// What is sent in the body of a request is read by its own names: the field, the action and the value
/// for a field; the field and the index for a choice; and the name for a preset.
pub proof fn law_bodies_are_read_by_name(
    c: ConfigV,
    paths: PathsV,
    job: Option<&Job>,
    presets: Seq<PresetV>,
    req: Request,
    seed: u64,
    id: Seq<char>,
    action: Seq<char>,
    value: Seq<char>,
    index: i64,
    name: Seq<char>,
)
    requires
        text_member(req.body@, "id"@) == Some(id),
        text_member(req.body@, "action"@) == Some(action),
        text_member(req.body@, "value"@) == Some(value),
        int_member(req.body@, "index"@) == Some(index),
        text_member(req.body@, "name"@) == Some(name),
        req.method is Post,
        lacks(req.url@, '?'),
    ensures
        ({
            let a = answered(c, paths, job, presets, req, seed);
            let path = req.url@;
            &&& path == "/api/field"@ ==> a == field_asked(c, paths, id, action, value, seed)
            &&& path == "/api/select"@ ==> a == (
                select_asked(c, paths, id, index as int),
                ReplyV::State,
            )
            &&& path == "/api/presets/save"@ ==> a == (c, save_asked(c, presets, name))
            &&& path == "/api/presets/load"@ ==> a == (load_asked(c, presets, name), ReplyV::State)
            &&& path == "/api/presets/delete"@ ==> a.0 == c && a.1 is Save && (rising(presets)
                ==> found(a.1->Save_0, name) is None)
        }),
{
    law_address_is_cut_at_the_question_mark(req.url@, Seq::<char>::empty());
    lemma_addresses();
    if rising(presets) {
        law_deleted_is_gone(presets, name, name);
    }
}

/// Asking for a file by an address, as a browser sends it, hands out that file, where it is a sound
/// file under the home directory.
pub proof fn law_file_is_asked_for_by_its_address(
    c: ConfigV,
    paths: PathsV,
    job: Option<&Job>,
    presets: Seq<PresetV>,
    req: Request,
    seed: u64,
    file: Seq<char>,
)
    requires
        req.method is Get,
        req.url@ == "/api/download?path="@ + sent(file),
        expanded(file, paths.home) == file,
        under(file, paths.home),
        ends(file, ".wav"@),
    ensures
        answered(c, paths, job, presets, req, seed) == (c, ReplyV::Download(file)),
{
    reveal_strlit("/api/download?path=");
    reveal_strlit("/api/download");
    reveal_strlit("path=");
    let path = "/api/download"@;
    let query = "path="@ + sent(file);
    assert(req.url@ =~= path + seq!['?'] + query);
    assert(lacks(path, '?'));
    law_address_is_cut_at_the_question_mark(path, query);
    lemma_addresses();
    law_sent_path_is_read_back(file);
}

/// Asking for the log by an address tells it from the position that the address names.
pub proof fn law_log_is_asked_for_by_its_address(
    c: ConfigV,
    paths: PathsV,
    job: Option<&Job>,
    presets: Seq<PresetV>,
    req: Request,
    seed: u64,
    n: nat,
)
    requires
        req.method is Get,
        req.url@ == "/api/log?since="@ + decimal(n),
        n <= u64::MAX,
    ensures
        answered(c, paths, job, presets, req, seed) == (c, ReplyV::Log(log_asked(job, n))),
{
    reveal_strlit("/api/log?since=");
    reveal_strlit("/api/log");
    reveal_strlit("since=");
    let path = "/api/log"@;
    let query = "since="@ + decimal(n);
    assert(req.url@ =~= path + seq!['?'] + query);
    assert(lacks(path, '?'));
    law_address_is_cut_at_the_question_mark(path, query);
    lemma_addresses();
    law_position_is_read_from_the_query(n);
}

// --- the state -------------------------------------------------------------------------------------

/// The page shows every field, under its identifier and label, on its tab, with its value and its
/// choices; of a choice it shows which one is made.
pub proof fn law_page_shows_every_field(
    c: ConfigV,
    paths: PathsV,
    job: Option<Status>,
    presets: Seq<PresetV>,
    history: Seq<HistoryV>,
    f: Field,
)
    ensures
        ({
            let s = state_of(c, paths, job, presets, history);
            let shown_as = s.fields[f.place()];
            &&& s.fields.len() == 25
            &&& shown_as.id == f.name()
            &&& shown_as.label == LABELS@[f.place()]@
            &&& shown_as.help == HELPS@[f.place()]@
            &&& shown_as.value == shown(c, f)
            &&& shown_as.options == choices(paths, f)
            &&& f.sort() == Kind::Select ==> shown_as.index == picked(c, paths, f) && shown_as.kind
                == "select"@
            &&& shown_as.auto_choice <==> f is Backend || f is Lm || f is Flow || f is Depth
            &&& f is MemSaver || f is PipelineOverlap <==> f.sort() == Kind::Bool
            &&& f.sort() == Kind::Bool ==> shown_as.kind == "bool"@
            &&& f.sort() == Kind::Int ==> shown_as.kind == "int"@
            &&& f.sort() == Kind::Float ==> shown_as.kind == "float"@
            &&& f.sort() == Kind::Text ==> shown_as.kind == "text"@
            &&& f.sort() == Kind::Multiline ==> shown_as.kind == "multiline"@
            &&& f is Lyrics <==> f.sort() == Kind::Multiline
            &&& f is Caption || f is Out <==> f.sort() == Kind::Text
            &&& f is Duration || f is Guidance || f is ArGuidance <==> f.sort() == Kind::Float
            &&& f is Genre || f is Mood || f is Vocals || shown_as.auto_choice <==> f.sort()
                == Kind::Select
            &&& f.tab_group() is Song ==> shown_as.group == "song"@
            &&& f.tab_group() is Advanced ==> shown_as.group == "advanced"@
            &&& f.tab_group() is Components ==> shown_as.group == "components"@
        }),
{
    crate::field::lemma_place(f);
}

/// The page shows what the settings come to and what is wrong with them, the command that they stand
/// for, and how the job stands; the newest runs come first, and no more than twenty of them.
pub proof fn law_page_shows_how_it_stands(
    c: ConfigV,
    paths: PathsV,
    job: Option<Status>,
    presets: Seq<PresetV>,
    history: Seq<HistoryV>,
    k: int,
)
    ensures
        ({
            let s = state_of(c, paths, job, presets, history);
            &&& s.caption == c.title()
            &&& s.lyrics == c.sung()
            &&& s.errors == c.faults(paths)
            &&& s.warnings == c.advice(paths)
            &&& s.out_path == expanded(trimmed(c.out), paths.home)
            &&& s.command == command_line(crate::argv::arguments(paths, c))
            &&& s.bin == paths.bin && s.model == paths.model_dir && s.backend == paths.backend
            &&& s.presets == names_of(presets)
            &&& s.running <==> job == Some(Status::Running)
            &&& job matches Some(j) ==> s.status == j.shown()
            &&& job is None ==> s.status == "idle"@
            &&& s.history.len() == if history.len() < 20 {
                history.len()
            } else {
                20
            }
            &&& 0 <= k < s.history.len() ==> s.history[k] == history[history.len() - 1 - k]
        }),
{
}

} // verus!
