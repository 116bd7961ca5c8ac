//! What is seen on the screen.

use vstd::prelude::*;

use crate::argv::arguments;
use crate::edit::shown;
use crate::field::{
    lemma_place, Field, ADVANCED_FIELDS, COMPONENT_FIELDS, HELPS, LABELS, SONG_FIELDS,
};
use crate::input::{column, feeds};
use crate::laws::startup::lemma_last_piece;
use crate::laws::texts::{lacks, law_filled_up_with_blanks, law_pieces_end_at_separators};
use crate::layout::{all_filled, centre, filled, law_shortened_fits, shortened, wide, wrapped, Area};
use crate::path::expanded;
use crate::presets::found;
use crate::runner::Status;
use crate::shell::command_line;
use crate::text::{begins, joined, lines, split, trimmed, words};
use crate::tui::{EditTarget, EditorV, Tab, TuiV, TABS};
use crate::view::{
    bar, described, editing, foot, form, help, log_seen, meant_size, one, piece, preset_list,
    preset_shown, previewed, run_standing, run_top, Tone, SPINNER,
};

verus! {

// --- tabs and fields -------------------------------------------------------------------------------

/// The bar shows the tabs in their order, and just the open one as open; behind them stands the caption,
/// up to its sixtieth character.
pub proof fn law_bar_marks_the_open_tab(v: TuiV, k: int)
    requires
        0 <= k < 6,
    ensures
        bar(v).len() == 14,
        bar(v)[2 + 2 * k].tone is Active <==> v.tab.place() == k,
        bar(v)[2].text == " "@ + "1 Song"@ + " "@,
        bar(v)[4].text == " "@ + "2 Advanced"@ + " "@,
        bar(v)[6].text == " "@ + "3 Components"@ + " "@,
        bar(v)[8].text == " "@ + "4 Run"@ + " "@,
        bar(v)[10].text == " "@ + "5 Presets"@ + " "@,
        bar(v)[12].text == " "@ + "6 Help"@ + " "@,
        v.cfg.title().len() <= 60 ==> bar(v)[13].text == "   "@ + v.cfg.title(),
        v.cfg.title().len() > 60 ==> bar(v)[13].text == "   "@ + v.cfg.title().take(60),
        v.tab is Song <==> v.tab.place() == 0,
        v.tab is Advanced <==> v.tab.place() == 1,
        v.tab is Components <==> v.tab.place() == 2,
        v.tab is Run <==> v.tab.place() == 3,
        v.tab is Presets <==> v.tab.place() == 4,
        v.tab is Help <==> v.tab.place() == 5,
{
    assert(TABS@[k].place() == k);
}

/// The first tab has the fields of the song, the second those for fine control, the third those of the
/// components; the others have none.
pub proof fn law_tabs_have_their_fields(tab: Tab)
    ensures
        Tab::Song.list() == seq![
            Field::Genre,
            Field::Mood,
            Field::Vocals,
            Field::Caption,
            Field::Lyrics,
            Field::Duration,
            Field::Steps,
            Field::Out,
        ],
        Tab::Advanced.list() == seq![
            Field::Guidance,
            Field::ArGuidance,
            Field::TopK,
            Field::Seed,
            Field::FlowInterval,
            Field::FlowWarmup,
            Field::FlowHop,
            Field::EnsembleTakes,
            Field::EnsemblePrefix,
            Field::MemSaver,
            Field::PipelineOverlap,
            Field::GraphCtx,
            Field::WeightCtx,
        ],
        Tab::Components.list() == seq![Field::Backend, Field::Lm, Field::Flow, Field::Depth],
        tab is Run || tab is Presets || tab is Help ==> tab.list().len() == 0,
{
}

/// A tab with fields shows them in their order below a title, each by its label and its value, and just
/// the selected one as selected.
pub proof fn law_form_shows_the_fields(v: TuiV, i: int)
    requires
        0 <= i < v.tab.list().len(),
    ensures
        ({
            let f = v.tab.list()[i];
            let row = form(v)[1 + i];
            &&& form(v).len() == 1 + v.tab.list().len()
            &&& v.tab is Song ==> form(v)[0] == one("  "@ + "Song"@ + " "@, Tone::Title)
            &&& v.tab is Advanced ==> form(v)[0] == one("  "@ + "Advanced"@ + " "@, Tone::Title)
            &&& v.tab is Components ==> form(v)[0] == one("  "@ + "Components"@ + " "@, Tone::Title)
            &&& row.len() == 3
            &&& row[0].text == "▶ "@ <==> i == v.selected
            &&& row[1].tone is Strong <==> i == v.selected
            &&& begins(row[1].text, LABELS@[f.place()]@)
            &&& row[1].text.len() >= 24
            &&& row[2].text == shortened(shown(v.cfg, f), 40)
            &&& f is MemSaver ==> (row[2].tone is Good <==> v.cfg.mem_saver)
            &&& f is PipelineOverlap ==> (row[2].tone is Good <==> v.cfg.pipeline_overlap)
        }),
{
    let f = v.tab.list()[i];
    reveal_strlit("▶ ");
    reveal_strlit("  ");
    reveal_strlit("true");
    reveal_strlit("false");
    assert("▶ "@[0] != "  "@[0]);
    assert("true"@.len() != "false"@.len());
    assert(SONG_FIELDS@[0] == Field::Genre && ADVANCED_FIELDS@[0] == Field::Guidance);
    assert(COMPONENT_FIELDS@[0] == Field::Backend);
    law_filled_up_with_blanks(LABELS@[f.place()]@, 24);
}

/// What is said of the selected field is its own label and meaning.
pub proof fn law_selected_field_is_described(v: TuiV)
    requires
        v.on_field(),
    ensures
        ({
            let f = v.tab.list()[v.selected as int];
            &&& described(v).0 == " "@ + LABELS@[f.place()]@ + " "@
            &&& described(v).1[0] == one(" "@ + HELPS@[f.place()]@, Tone::Dim)
            &&& described(v).1.len() == 2
        }),
{
}

/// The preview shows the caption and the beginning of the lyrics as they are sung, and below them every
/// warning that there is.
pub proof fn law_preview_shows_caption_lyrics_and_warnings(v: TuiV, width: nat, i: int)
    requires
        width >= 11,
    ensures
        ({
            let p = previewed(v, width);
            let caption = wrapped(v.cfg.title(), (width - 3) as nat);
            let lyrics = lines(v.cfg.sung());
            let n = if lyrics.len() < 12 {
                lyrics.len() as int
            } else {
                12
            };
            let advice = v.cfg.advice(v.paths);
            &&& 0 <= i < caption.len() ==> p[1 + i] == one("  "@ + caption[i], Tone::Plain)
            &&& 0 <= i < n ==> p[3 + caption.len() + i] == one("  "@ + lyrics[i], Tone::Plain)
            &&& advice.len() == 0 ==> p.len() == 3 + caption.len() + n
            &&& advice.len() > 0 ==> p.len() == 5 + caption.len() + n + advice.len()
            &&& 0 <= i < advice.len() ==> p[5 + caption.len() + n + i] == one(
                "  • "@ + advice[i],
                Tone::Bad,
            )
        }),
{
}

// --- the run ---------------------------------------------------------------------------------------

/// Above the log stand the command that would be run, and every warning.
pub proof fn law_command_is_shown_above_the_log(v: TuiV, i: int)
    ensures
        ({
            let advice = v.cfg.advice(v.paths);
            let command = command_line(arguments(v.paths, v.cfg));
            &&& run_top(v).len() == 2 + advice.len()
            &&& run_top(v)[1] == one("  "@ + shortened(command, 2000), Tone::Plain)
            &&& 0 <= i < advice.len() ==> run_top(v)[2 + i] == one("  ⚠ "@ + advice[i], Tone::Bad)
        }),
{
}

/// Of the log the last lines that fit are seen, in their order; scrolled up by a number of lines, those
/// before that many.
pub proof fn law_last_lines_are_seen(v: TuiV, visible: nat, i: int)
    requires
        v.log_offset <= v.log.len(),
    ensures
        ({
            let rows = log_seen(v, visible).1;
            let end = v.log.len() - v.log_offset;
            &&& rows.len() == if visible < end {
                visible as int
            } else {
                end
            }
            &&& 0 <= i < rows.len() ==> rows[i] == one(
                ""@ + v.log[end - rows.len() + i],
                Tone::Dim,
            )
        }),
        v.status_msg matches Some(s) ==> log_seen(v, visible).0 == " log · "@ + s + " "@,
        v.status_msg is None ==> log_seen(v, visible).0 == " log "@,
{
}

/// While a job runs it is said that it does, and for how long; once it ended, that it was saved and
/// where just where it went well, and else that it was aborted or how it failed.
pub proof fn law_run_is_told_as_it_stands(
    v: TuiV,
    elapsed: Seq<char>,
    wall: Seq<char>,
    last: Seq<char>,
)
    ensures
        ({
            let first = run_standing(v, elapsed, wall, last)[0];
            let ended = v.job is Some && v.job != Some(Status::Running) && v.finished;
            &&& v.job == Some(Status::Running) ==> first[1].text == "composing…"@ && first[2].text
                == "  "@ + elapsed + "s"@
            &&& ended && v.job == Some(Status::Success) ==> first == one(
                " ✓ saved → "@ + expanded(trimmed(v.cfg.out), v.paths.home),
                Tone::GoodHeading,
            )
            &&& ended && v.job == Some(Status::Aborted) ==> first == one(" aborted"@, Tone::BadHeading)
            &&& ended && v.job->0 is Failed ==> first == one(
                " ✗ "@ + v.job->0.shown(),
                Tone::BadHeading,
            )
            &&& first[0].tone is GoodHeading <==> ended && v.job == Some(Status::Success)
            &&& ended ==> run_standing(v, elapsed, wall, last)[1] == one(
                " wall "@ + wall + "s · n new path · Enter/g regenerate"@,
                Tone::Dim,
            )
            &&& !ended && v.job != Some(Status::Running) ==> first == one(
                " idle — press Enter or g to compose"@,
                Tone::Dim,
            )
            &&& v.history.len() > 0 ==> run_standing(v, elapsed, wall, last).last() == one(
                " last: "@ + shortened(v.history.last().out, 60) + " ("@ + last + "s)"@,
                Tone::Dim,
            )
        }),
{
}

/// What turns while a job runs goes on by one of its ten signs every third time, and begins again behind
/// the last.
pub proof fn law_spinner_goes_around(
    v: TuiV,
    elapsed: Seq<char>,
    wall: Seq<char>,
    last: Seq<char>,
    k: int,
)
    requires
        v.job == Some(Status::Running),
        0 <= k < 10,
        v.spinner as int % 30 / 3 == k,
    ensures
        run_standing(v, elapsed, wall, last)[0][0].text == " "@ + SPINNER@[k]@ + " "@,
{
    assert((v.spinner as int / 3) % 10 == k);
}

// --- presets, help, and what is below --------------------------------------------------------------

/// The presets are listed by their names, in their order, and just the chosen one as chosen.
pub proof fn law_presets_are_listed(v: TuiV, i: int)
    requires
        0 <= i < v.preset_names.len(),
    ensures
        preset_list(v).len() == v.preset_names.len(),
        i == v.preset_idx ==> preset_list(v)[i] == one(" ▶ "@ + v.preset_names[i], Tone::Strong),
        i != v.preset_idx ==> preset_list(v)[i] == one("   "@ + v.preset_names[i], Tone::Dim),
{
}

/// What is shown of the chosen preset is what loading it would give: every field with its label and its
/// value in the settings that are found under the name.
pub proof fn law_chosen_preset_is_shown(v: TuiV, f: Field)
    requires
        v.preset_idx < v.preset_names.len(),
        found(v.presets, v.preset_names[v.preset_idx as int]) is Some,
    ensures
        ({
            let name = v.preset_names[v.preset_idx as int];
            let c = found(v.presets, name)->0;
            let row = preset_shown(v)[2 + f.place()];
            &&& preset_shown(v).len() == 27
            &&& preset_shown(v)[0] == one(" "@ + name, Tone::Heading)
            &&& begins(row[0].text, " "@ + LABELS@[f.place()]@)
            &&& row[1] == piece(shortened(shown(c, f), 40), Tone::White)
        }),
{
    lemma_place(f);
    let label = LABELS@[f.place()]@;
    law_filled_up_with_blanks(label, 24);
    let p = crate::text::padded(label, 24);
    assert((" "@ + p).take((" "@ + label).len() as int) =~= " "@ + p.take(label.len() as int));
}

/// Where there are no presets that is said, and where none is chosen how they are used.
pub proof fn law_missing_presets_are_told(v: TuiV)
    ensures
        v.preset_names.len() == 0 ==> preset_list(v) == seq![one("  (no presets yet)"@, Tone::Dim)],
        v.preset_idx >= v.preset_names.len() ==> preset_shown(v) == seq![
            one("  Enter load · s save current as · d delete · r reset"@, Tone::Dim),
        ],
{
}

/// The help tells what every field means, under its label; and at its end it says that the setup is
/// good just where there is nothing to warn of.
pub proof fn law_help_explains_every_field(v: TuiV, f: Field, i: int)
    ensures
        ({
            let advice = v.cfg.advice(v.paths);
            let row = help(v)[13 + f.place()];
            &&& begins(row[0].text, "   "@ + LABELS@[f.place()]@)
            &&& row[1] == piece(HELPS@[f.place()]@, Tone::Dim)
            &&& advice.len() == 0 ==> help(v).last() == one("   ✓ setup looks good"@, Tone::Good)
            &&& advice.len() > 0 ==> help(v).last() == one("   ⚠ "@ + advice.last(), Tone::Bad)
            &&& 0 <= i < advice.len() ==> help(v)[40 + i] == one("   ⚠ "@ + advice[i], Tone::Bad)
        }),
{
    lemma_place(f);
    let label = LABELS@[f.place()]@;
    law_filled_up_with_blanks(label, 24);
    let p = crate::text::padded(label, 24);
    assert(("   "@ + p).take(("   "@ + label).len() as int) =~= "   "@ + p.take(label.len() as int));
}

/// At the foot stands what was said last, and the keys only where nothing was.
pub proof fn law_foot_says_what_was_said(v: TuiV)
    ensures
        v.status_msg matches Some(s) ==> foot(v) == one(" "@ + s, Tone::Accent),
        foot(v)[0].tone is Dim <==> v.status_msg is None,
{
}

/// An editor is headed by the label of its field, or by what it is for; that enter begins a new line is
/// said just where it does.
pub proof fn law_editor_says_what_enter_does(e: EditorV)
    ensures
        e.target matches EditTarget::Field(f) ==> editing(e).0 == " "@ + LABELS@[f.place()]@ + " "@,
        e.target is PresetName ==> editing(e).0 == " save preset as "@,
        e.target is Field && e.multiline ==> editing(e).1
            == " Enter = new line · Ctrl-Enter or Tab = save · Esc = cancel"@,
        e.target is PresetName || !e.multiline ==> editing(e).1 == " Enter = save · Esc = cancel"@,
{
}

/// The box of an editor is meant to be as wide for every text, and higher for one of several lines.
pub proof fn law_box_is_higher_for_several_lines(e: EditorV, d: EditorV)
    ensures
        meant_size(e).0 == 70,
        e.multiline ==> meant_size(e).1 == 60,
        !e.multiline ==> meant_size(e).1 == 20,
        e.multiline && !d.multiline ==> meant_size(e).1 > meant_size(d).1,
{
}

// --- fitting ---------------------------------------------------------------------------------------

/// A text that is too long is cut off: its beginning is kept, and an ellipsis says that it went on.
pub proof fn law_shortened_begins_alike(s: Seq<char>, max: nat)
    requires
        lacks(s, '\n'),
        0 < max < s.len(),
    ensures
        shortened(s, max).len() == max,
        shortened(s, max).take(max - 1) == s.take(max - 1),
        shortened(s, max).last() == '…',
{
    reveal_strlit("…");
    law_shortened_fits(s, s.len());
    assert(shortened(s, max).take(max - 1) =~= s.take(max - 1));
}

/// A box in the middle leaves as much on both sides, but for one column or row, and is as large as asked
/// for where there is room for it.
pub proof fn law_box_is_in_the_middle(area: Area, pw: u16, ph: u16)
    requires
        area.x + area.width <= u16::MAX,
        area.y + area.height <= u16::MAX,
        20 <= pw <= area.width - 2,
        5 <= ph <= area.height - 2,
    ensures
        ({
            let r = centre(area, pw, ph);
            let left = r.x - area.x;
            let right = area.width - r.width - left;
            let above = r.y - area.y;
            let below = area.height - r.height - above;
            &&& r.width == pw && r.height == ph
            &&& left <= right <= left + 1
            &&& above <= below <= above + 1
        }),
{
}

/// The line that a cursor stands on is counted by the line feeds before it, and its column from the last
/// of them.
pub proof fn law_cursor_stands_behind_the_line_feeds(a: Seq<char>, b: Seq<char>)
    requires
        lacks(b, '\n'),
    ensures
        feeds(b) == 0,
        column(b) == b.len(),
        feeds(a + seq!['\n'] + b) == feeds(a) + 1,
        column(a + seq!['\n'] + b) == b.len(),
    decreases b.len(),
{
    let s = a + seq!['\n'] + b;
    if b.len() == 0 {
        assert(s.drop_last() =~= a);
    } else {
        assert(lacks(b.drop_last(), '\n')) by {
            assert forall|i: int| 0 <= i < b.drop_last().len() implies #[trigger] b.drop_last()[i]
                != '\n' by {
                assert(b.drop_last()[i] == b[i]);
            }
        }
        law_cursor_stands_behind_the_line_feeds(a, b.drop_last());
        assert(s.drop_last() =~= a + seq!['\n'] + b.drop_last());
        assert(b[b.len() - 1] != '\n');
    }
}

/// Words that fit on one line stand on it, with a blank between them.
pub proof fn law_words_that_fit_share_a_line(ws: Seq<Seq<char>>, width: nat)
    requires
        ws.len() > 0,
        forall|i: int| 0 <= i < ws.len() ==> (#[trigger] ws[i]).len() > 0,
        joined(ws, seq![' ']).len() <= width,
    ensures
        filled(ws, width) == seq![joined(ws, seq![' '])],
    decreases ws.len(),
{
    let init = ws.drop_last();
    if ws.len() == 1 {
        assert(filled(init, width) =~= seq![Seq::<char>::empty()]);
        assert(filled(ws, width) =~= seq![joined(ws, seq![' '])]);
    } else {
        assert forall|i: int| 0 <= i < init.len() implies (#[trigger] init[i]).len() > 0 by {
            assert(init[i] == ws[i]);
        }
        law_words_that_fit_share_a_line(init, width);
        lemma_joined_is_something(init);
        assert(filled(ws, width) =~= seq![joined(ws, seq![' '])]);
    }
}

proof fn lemma_joined_is_something(ws: Seq<Seq<char>>)
    requires
        ws.len() > 0,
        forall|i: int| 0 <= i < ws.len() ==> (#[trigger] ws[i]).len() > 0,
    ensures
        joined(ws, seq![' ']).len() > 0,
{
    assert(ws[0].len() > 0);
}

/// A further word goes behind the last line where it fits there, and else on a line of its own.
pub proof fn law_word_goes_where_it_fits(ws: Seq<Seq<char>>, w: Seq<char>, width: nat)
    requires
        filled(ws, width).last().len() > 0,
    ensures
        ({
            let had = filled(ws, width);
            let now = filled(ws.push(w), width);
            let fits = had.last().len() + 1 + w.len() <= width;
            &&& fits ==> now.len() == had.len() && now.last() == had.last() + seq![' '] + w
            &&& !fits ==> now == had.push(w)
        }),
{
    assert(ws.push(w).drop_last() =~= ws);
    assert(filled(ws, width).len() > 0) by {
        lemma_filled_len(ws, width);
    }
}

proof fn lemma_filled_len(ws: Seq<Seq<char>>, width: nat)
    ensures
        filled(ws, width).len() > 0,
    decreases ws.len(),
{
    if ws.len() > 0 {
        lemma_filled_len(ws.drop_last(), width);
    }
}

/// A text is wrapped paragraph by paragraph, and no narrower than eight columns.
pub proof fn law_paragraphs_are_wrapped_apart(a: Seq<char>, b: Seq<char>, width: nat)
    requires
        lacks(b, '\n'),
    ensures
        wrapped(a + seq!['\n'] + b, width) == wrapped(a, width) + wrapped(b, width),
        width >= 8 ==> wrapped(b, width) == filled(words(b), width),
        width < 8 ==> wrapped(a, width) == wrapped(a, 8),
{
    lemma_last_piece(a, b, '\n');
    law_pieces_end_at_separators(b, Seq::<char>::empty(), '\n');
    let pieces = split(a, '\n').push(b);
    assert(pieces.drop_last() =~= split(a, '\n'));
    let one = seq![b];
    assert(one.drop_last() =~= Seq::<Seq<char>>::empty());
    let w = wide(width);
    assert(all_filled(one.drop_last(), w) =~= Seq::<Seq<char>>::empty());
    assert(all_filled(one, w) =~= filled(words(b), w));
}

} // verus!
