//! What the terminal shows: the lines of every tab, with the tone of each piece.

use vstd::prelude::*;

use crate::argv::{arguments, build_argv};
use crate::config::{Config, ConfigV};
use crate::detect::{texts, to_list};
use crate::edit::{shown, value_string};
use crate::field::{Field, Group, Kind, ALL_FIELDS, HELPS, LABELS};
use crate::layout::{seen, shortened, truncate, window, wrap, wrapped};
use crate::path::expanded;
use crate::presets::found;
use crate::runner::Status;
use crate::shell::{command_line, shell_join};
use crate::text::{at_most, first_chars, lines, pad, padded, same, split_lines, trimmed, views};
use crate::tui::{EditTarget, Editor, EditorV, Tab, TuiApp, TuiV, TABS, TAB_NAMES};

verus! {

// --- pieces and rows ---------------------------------------------------------------------------

/// How a piece of text looks.
#[derive(Clone, Copy, Debug, PartialEq, Eq, Structural)]
pub enum Tone {
    Plain,
    Dim,
    White,
    Strong,
    Title,
    Mark,
    Active,
    Accent,
    Heading,
    Good,
    GoodHeading,
    Bad,
    BadHeading,
}

/// A piece of a row.
pub struct Piece {
    pub text: String,
    pub tone: Tone,
}

/// What a [`Piece`] holds.
#[verifier::ext_equal]
pub struct PieceV {
    pub text: Seq<char>,
    pub tone: Tone,
}

impl View for Piece {
    type V = PieceV;

    open spec fn view(&self) -> PieceV {
        PieceV { text: self.text@, tone: self.tone }
    }
}

/// A row of the screen.
pub struct Row {
    pub pieces: Vec<Piece>,
}

impl View for Row {
    type V = Seq<PieceV>;

    open spec fn view(&self) -> Seq<PieceV> {
        self.pieces@.map_values(|p: Piece| p@)
    }
}

/// What rows hold.
pub open spec fn rows(v: Seq<Row>) -> Seq<Seq<PieceV>> {
    v.map_values(|r: Row| r@)
}

/// A piece.
pub open spec fn piece(text: Seq<char>, tone: Tone) -> PieceV {
    PieceV { text, tone }
}

/// A row of one piece.
pub open spec fn one(text: Seq<char>, tone: Tone) -> Seq<PieceV> {
    seq![piece(text, tone)]
}

/// A row for each text, with something before it.
pub open spec fn each(prefix: Seq<char>, list: Seq<Seq<char>>, tone: Tone) -> Seq<Seq<PieceV>> {
    list.map_values(|s: Seq<char>| one(prefix + s, tone))
}

fn empty_row() -> (r: Row)
    ensures
        r@ == Seq::<PieceV>::empty(),
{
    let r = Row { pieces: Vec::new() };
    assert(r@ =~= Seq::<PieceV>::empty());
    r
}

impl Row {
    fn put(&mut self, text: String, tone: Tone)
        ensures
            final(self)@ == old(self)@.push(piece(text@, tone)),
    {
        self.pieces.push(Piece { text, tone });
        assert(self@ =~= old(self)@.push(piece(text@, tone)));
    }
}

fn single(text: String, tone: Tone) -> (r: Row)
    ensures
        r@ == one(text@, tone),
{
    let mut r = empty_row();
    r.put(text, tone);
    assert(r@ =~= one(text@, tone));
    r
}

fn glue(a: &str, b: &str, c: &str) -> (r: String)
    ensures
        r@ == a@ + b@ + c@,
{
    let mut s = a.to_string();
    s.append(b);
    s.append(c);
    s
}

fn prefixed(a: &str, b: &str) -> (r: String)
    ensures
        r@ == a@ + b@,
{
    let mut s = a.to_string();
    s.append(b);
    s
}

fn add_row(out: &mut Vec<Row>, row: Row)
    ensures
        rows(final(out)@) == rows(old(out)@).push(row@),
{
    out.push(row);
    assert(rows(out@) =~= rows(old(out)@).push(row@));
}

fn add_each(out: &mut Vec<Row>, prefix: &str, list: &Vec<String>, tone: Tone)
    ensures
        rows(final(out)@) == rows(old(out)@) + each(prefix@, views(list@), tone),
{
    let ghost all = each(prefix@, views(list@), tone);
    let ghost had = rows(out@);
    let mut i: usize = 0;
    assert(had + all.take(0) =~= had);
    while i < list.len()
        invariant
            i <= list@.len(),
            all == each(prefix@, views(list@), tone),
            rows(out@) == had + all.take(i as int),
        decreases list@.len() - i,
    {
        let row = single(prefixed(prefix, list[i].as_str()), tone);
        assert(views(list@)[i as int] == list@[i as int]@);
        assert(all[i as int] == row@);
        add_row(out, row);
        i = i + 1;
        assert(had + all.take(i as int) =~= (had + all.take(i - 1)).push(all[i - 1]));
    }
    assert(all.take(i as int) =~= all);
}

fn no_rows() -> (r: Vec<Row>)
    ensures
        rows(r@) == Seq::<Seq<PieceV>>::empty(),
{
    let r: Vec<Row> = Vec::new();
    assert(rows(r@) =~= Seq::<Seq<PieceV>>::empty());
    r
}

// --- the bar of tabs -----------------------------------------------------------------------------

/// The bar: the name of the program, the tabs with the open one marked, and the caption.
pub open spec fn bar(v: TuiV) -> Seq<PieceV> {
    seq![piece(" ✦ Lyra "@, Tone::Title)] + Seq::new(
        12,
        |k: int|
            if k % 2 == 0 {
                piece(" "@, Tone::Plain)
            } else {
                piece(
                    " "@ + TAB_NAMES@[k / 2]@ + " "@,
                    if TABS@[k / 2] == v.tab {
                        Tone::Active
                    } else {
                        Tone::Dim
                    },
                )
            },
    ) + seq![piece("   "@ + at_most(v.cfg.title(), 60), Tone::Dim)]
}

/// The bar of the tabs.
pub fn tab_bar(app: &TuiApp) -> (r: Row)
    ensures
        r@ == bar(app@),
{
    let mut r = empty_row();
    r.put(" ✦ Lyra ".to_string(), Tone::Title);
    let ghost all = bar(app@);
    let mut i: usize = 0;
    assert(r@ =~= all.take(1));
    while i < 6
        invariant
            i <= 6,
            all == bar(app@),
            r@ == all.take(1 + 2 * i),
        decreases 6 - i,
    {
        r.put(" ".to_string(), Tone::Plain);
        let tone = if TABS[i] == app.tab {
            Tone::Active
        } else {
            Tone::Dim
        };
        r.put(glue(" ", TAB_NAMES[i], " "), tone);
        i = i + 1;
        assert(r@ =~= all.take(1 + 2 * i));
    }
    r.put(prefixed("   ", first_chars(app.cfg.caption().as_str(), 60).as_str()), Tone::Dim);
    assert(r@ =~= all);
    r
}

// --- the tabs with fields ------------------------------------------------------------------------

/// What is written above the fields of a group.
pub open spec fn group_title(g: Group) -> Seq<char> {
    match g {
        Group::Song => "Song"@,
        Group::Advanced => "Advanced"@,
        Group::Components => "Components"@,
    }
}

/// What is written above the fields of a group.
pub fn group_name(g: Group) -> (r: &'static str)
    ensures
        r@ == group_title(g),
{
    match g {
        Group::Song => "Song",
        Group::Advanced => "Advanced",
        Group::Components => "Components",
    }
}

/// All fields of a tab are of one group.
pub proof fn law_tab_is_one_group(tab: Tab, i: int, j: int)
    requires
        0 <= i < tab.list().len(),
        0 <= j < tab.list().len(),
    ensures
        tab.list()[i].tab_group() == tab.list()[j].tab_group(),
{
}

/// The row of a field: whether it is selected, its label and its value.
pub open spec fn field_row(c: ConfigV, f: Field, selected: bool) -> Seq<PieceV> {
    seq![
        piece(
            if selected {
                "▶ "@
            } else {
                "  "@
            },
            Tone::Accent,
        ),
        piece(
            padded(LABELS@[f.place()]@, 24),
            if selected {
                Tone::Strong
            } else {
                Tone::Dim
            },
        ),
        piece(
            shortened(shown(c, f), 40),
            match f.sort() {
                Kind::Bool => if shown(c, f) == "true"@ {
                    Tone::Good
                } else {
                    Tone::Dim
                },
                Kind::Select => Tone::Accent,
                _ => Tone::White,
            },
        ),
    ]
}

/// The rows of a tab with fields: the name of its group, and its fields.
pub open spec fn form(v: TuiV) -> Seq<Seq<PieceV>> {
    let fields = v.tab.list();
    if fields.len() == 0 {
        Seq::<Seq<PieceV>>::empty()
    } else {
        seq![one("  "@ + group_title(fields[0].tab_group()) + " "@, Tone::Title)] + Seq::new(
            fields.len(),
            |i: int| field_row(v.cfg, fields[i], i == v.selected),
        )
    }
}

fn show_field(cfg: &Config, f: Field, selected: bool) -> (r: Row)
    ensures
        r@ == field_row(cfg@, f, selected),
{
    let mut r = empty_row();
    let marker = if selected {
        "▶ "
    } else {
        "  "
    };
    r.put(marker.to_string(), Tone::Accent);
    r.put(
        pad(f.label(), 24),
        if selected {
            Tone::Strong
        } else {
            Tone::Dim
        },
    );
    let value = value_string(cfg, f);
    let tone = match f.kind() {
        Kind::Bool => if same(value.as_str(), "true") {
            Tone::Good
        } else {
            Tone::Dim
        },
        Kind::Select => Tone::Accent,
        _ => Tone::White,
    };
    r.put(truncate(value.as_str(), 40), tone);
    assert(r@ =~= field_row(cfg@, f, selected));
    r
}

/// The rows of a tab with fields.
pub fn form_rows(app: &TuiApp) -> (r: Vec<Row>)
    ensures
        rows(r@) == form(app@),
{
    let mut out = no_rows();
    let n = app.tab.count();
    if n == 0 {
        return out;
    }
    let ghost all = form(app@);
    let head = glue("  ", group_name(app.tab.field(0).group()), " ");
    add_row(&mut out, single(head, Tone::Title));
    let mut i: usize = 0;
    assert(rows(out@) =~= all.take(1));
    while i < n
        invariant
            i <= n == app@.tab.list().len(),
            n > 0,
            all == form(app@),
            rows(out@) == all.take(1 + i),
        decreases n - i,
    {
        let row = show_field(&app.cfg, app.tab.field(i), i == app.selected);
        add_row(&mut out, row);
        i = i + 1;
        assert(all.take(1 + i) =~= all.take(i as int).push(all[i as int]));
    }
    assert(all.take(1 + i) =~= all);
    out
}

/// What is said of the selected field: its label as a title, and what it means.
pub open spec fn described(v: TuiV) -> (Seq<char>, Seq<Seq<PieceV>>) {
    let fields = v.tab.list();
    let known = v.selected < fields.len();
    let f = fields[v.selected as int];
    (
        if known {
            " "@ + LABELS@[f.place()]@ + " "@
        } else {
            Seq::<char>::empty()
        },
        seq![
            one(
                " "@ + if known {
                    HELPS@[f.place()]@
                } else {
                    Seq::<char>::empty()
                },
                Tone::Dim,
            ),
            one(" ←/→ adjust · Enter edit · space toggle/cycle · g generate"@, Tone::Dim),
        ],
    )
}

/// What is said of the selected field.
pub fn detail(app: &TuiApp) -> (r: (String, Vec<Row>))
    ensures
        (r.0@, rows(r.1@)) == described(app@),
{
    let mut title = String::new();
    let mut help = " ".to_string();
    if app.selected < app.tab.count() {
        let f = app.tab.field(app.selected);
        title = glue(" ", f.label(), " ");
        help.append(f.help());
    } else {
        assert(" "@ + Seq::<char>::empty() =~= " "@);
    }
    let mut out = no_rows();
    add_row(&mut out, single(help, Tone::Dim));
    add_row(
        &mut out,
        single(
            " ←/→ adjust · Enter edit · space toggle/cycle · g generate".to_string(),
            Tone::Dim,
        ),
    );
    assert(rows(out@) =~= described(app@).1);
    (title, out)
}

/// The first texts of a list.
pub open spec fn firsts(list: Seq<Seq<char>>, n: nat) -> Seq<Seq<char>> {
    if list.len() <= n {
        list
    } else {
        list.take(n as int)
    }
}

fn first_of_list(list: Vec<String>, n: usize) -> (r: Vec<String>)
    ensures
        views(r@) == firsts(views(list@), n as nat),
{
    let mut list = list;
    let ghost all = views(list@);
    if list.len() > n {
        let gone = list.split_off(n);
        assert(views(list@) =~= all.take(n as int));
    }
    list
}

/// The preview, in a part of the screen with a width: the caption, the beginning of the lyrics, and
/// what is worth saying.
pub open spec fn previewed(v: TuiV, width: nat) -> Seq<Seq<PieceV>> {
    let advice = v.cfg.advice(v.paths);
    seq![one(" Caption"@, Tone::Heading)] + each(
        "  "@,
        wrapped(
            v.cfg.title(),
            if width > 3 {
                (width - 3) as nat
            } else {
                0
            },
        ),
        Tone::Plain,
    ) + seq![one(""@, Tone::Plain), one(" Lyrics"@, Tone::Heading)] + each(
        "  "@,
        firsts(lines(v.cfg.sung()), 12),
        Tone::Plain,
    ) + if advice.len() > 0 {
        seq![one(""@, Tone::Plain), one(" Warnings"@, Tone::BadHeading)] + each(
            "  • "@,
            advice,
            Tone::Bad,
        )
    } else {
        Seq::<Seq<PieceV>>::empty()
    }
}

/// The preview, in a part of the screen with a width.
#[verifier::rlimit(40)]
pub fn preview(app: &TuiApp, width: usize) -> (r: Vec<Row>)
    ensures
        rows(r@) == previewed(app@, width as nat),
{
    let mut out = no_rows();
    add_row(&mut out, single(" Caption".to_string(), Tone::Heading));
    let room: usize = if width > 3 {
        width - 3
    } else {
        0
    };
    let caption = wrap(app.cfg.caption().as_str(), room);
    let ghost upper = each("  "@, views(caption@), Tone::Plain);
    add_each(&mut out, "  ", &caption, Tone::Plain);
    assert(rows(out@) =~= seq![one(" Caption"@, Tone::Heading)] + upper);
    add_row(&mut out, single("".to_string(), Tone::Plain));
    add_row(&mut out, single(" Lyrics".to_string(), Tone::Heading));
    let sung = first_of_list(split_lines(app.cfg.lyrics_text().as_str()), 12);
    let ghost lower = each("  "@, views(sung@), Tone::Plain);
    add_each(&mut out, "  ", &sung, Tone::Plain);
    let ghost top = seq![one(" Caption"@, Tone::Heading)] + upper + seq![
        one(""@, Tone::Plain),
        one(" Lyrics"@, Tone::Heading),
    ] + lower;
    assert(rows(out@) =~= top);
    let advice = app.cfg.warnings(&app.paths);
    assert(views(advice@).len() == advice@.len());
    if advice.len() > 0 {
        let ghost said = each("  • "@, views(advice@), Tone::Bad);
        add_row(&mut out, single("".to_string(), Tone::Plain));
        add_row(&mut out, single(" Warnings".to_string(), Tone::BadHeading));
        add_each(&mut out, "  • ", &advice, Tone::Bad);
        assert(rows(out@) =~= top + (seq![
            one(""@, Tone::Plain),
            one(" Warnings"@, Tone::BadHeading),
        ] + said));
    } else {
        assert(rows(out@) =~= top + Seq::<Seq<PieceV>>::empty());
    }
    out
}

// --- the tab of the run --------------------------------------------------------------------------

/// What stands above the log: the command, and what is worth saying.
pub open spec fn run_top(v: TuiV) -> Seq<Seq<PieceV>> {
    seq![
        one(" command"@, Tone::Heading),
        one("  "@ + shortened(command_line(arguments(v.paths, v.cfg)), 2000), Tone::Plain),
    ] + each("  ⚠ "@, v.cfg.advice(v.paths), Tone::Bad)
}

/// What stands above the log.
pub fn run_head(app: &TuiApp) -> (r: Vec<Row>)
    ensures
        rows(r@) == run_top(app@),
{
    let mut out = no_rows();
    add_row(&mut out, single(" command".to_string(), Tone::Heading));
    let command = shell_join(&build_argv(&app.paths, &app.cfg));
    add_row(
        &mut out,
        single(prefixed("  ", truncate(command.as_str(), 2000).as_str()), Tone::Plain),
    );
    add_each(&mut out, "  ⚠ ", &app.cfg.warnings(&app.paths), Tone::Bad);
    assert(rows(out@) =~= run_top(app@));
    out
}

/// The log, where a number of lines can be seen: a title with what was said last, and the lines.
pub open spec fn log_seen(v: TuiV, visible: nat) -> (Seq<char>, Seq<Seq<PieceV>>) {
    let (start, end) = seen(v.log.len(), visible, v.log_offset as nat);
    (
        match v.status_msg {
            Some(s) => " log · "@ + s + " "@,
            None => " log "@,
        },
        each(""@, v.log.subrange(start as int, end as int), Tone::Dim),
    )
}

/// The log, where a number of lines can be seen.
pub fn run_log(app: &TuiApp, visible: usize) -> (r: (String, Vec<Row>))
    ensures
        (r.0@, rows(r.1@)) == log_seen(app@, visible as nat),
{
    let title = match &app.status_msg {
        Some(s) => glue(" log · ", s.as_str(), " "),
        None => " log ".to_string(),
    };
    let (start, end) = window(app.log.len(), visible, app.log_offset);
    let ghost all = log_seen(app@, visible as nat).1;
    let mut out = no_rows();
    let mut i: usize = start;
    assert(rows(out@) =~= all.take(0));
    assert(all.len() == end - start);
    while i < end
        invariant
            start <= i <= end <= app.log@.len(),
            (start as nat, end as nat) == seen(app@.log.len(), visible as nat, app@.log_offset as nat),
            all == log_seen(app@, visible as nat).1,
            rows(out@) == all.take(i - start),
        decreases end - i,
    {
        let row = single(app.log[i].clone(), Tone::Dim);
        proof {
            reveal_strlit("");
            assert(""@ + app.log@[i as int]@ =~= app.log@[i as int]@);
            assert(app@.log.subrange(start as int, end as int)[i - start] == app.log@[i as int]@);
            assert(all[i - start] =~= row@);
        }
        add_row(&mut out, row);
        i = i + 1;
        assert(all.take(i - start) =~= all.take(i - start - 1).push(all[i - start - 1]));
    }
    assert(all.take(i - start) =~= all);
    (title, out)
}

/// What turns while a job runs.
pub const SPINNER: [&'static str; 10] = ["⠋", "⠙", "⠹", "⠸", "⠼", "⠴", "⠦", "⠧", "⠇", "⠏"];

/// How the run stands. `elapsed` is the time since its start in whole seconds, `wall` the time that
/// it took and `last` that of the newest row of the history, both in seconds with one decimal.
pub open spec fn run_standing(
    v: TuiV,
    elapsed: Seq<char>,
    wall: Seq<char>,
    last: Seq<char>,
) -> Seq<Seq<PieceV>> {
    let now = if v.moving() {
        seq![
            seq![
                piece(" "@ + SPINNER@[(v.spinner as int / 3) % 10]@ + " "@, Tone::Mark),
                piece("composing…"@, Tone::Strong),
                piece("  "@ + elapsed + "s"@, Tone::Accent),
                piece("   a abort"@, Tone::Dim),
            ],
        ]
    } else if v.job is Some && v.finished {
        let status = v.job->0;
        seq![
            match status {
                Status::Success => one(
                    " ✓ saved → "@ + expanded(trimmed(v.cfg.out), v.paths.home),
                    Tone::GoodHeading,
                ),
                Status::Aborted => one(" aborted"@, Tone::BadHeading),
                _ => one(" ✗ "@ + status.shown(), Tone::BadHeading),
            },
            one(" wall "@ + wall + "s · n new path · Enter/g regenerate"@, Tone::Dim),
        ]
    } else {
        seq![one(" idle — press Enter or g to compose"@, Tone::Dim)]
    };
    now + if v.history.len() > 0 {
        seq![
            one(
                " last: "@ + shortened(v.history.last().out, 60) + " ("@ + last + "s)"@,
                Tone::Dim,
            ),
        ]
    } else {
        Seq::<Seq<PieceV>>::empty()
    }
}

/// How the run stands.
pub fn run_status(app: &TuiApp, elapsed: &str, wall: &str, last: &str) -> (r: Vec<Row>)
    ensures
        rows(r@) == run_standing(app@, elapsed@, wall@, last@),
{
    let mut out = no_rows();
    match app.job {
        Some(Status::Running) => {
            let mut row = empty_row();
            let turn: usize = ((app.spinner / 3) % 10) as usize;
            row.put(glue(" ", SPINNER[turn], " "), Tone::Mark);
            row.put("composing…".to_string(), Tone::Strong);
            row.put(glue("  ", elapsed, "s"), Tone::Accent);
            row.put("   a abort".to_string(), Tone::Dim);
            assert(row@ =~= run_standing(app@, elapsed@, wall@, last@)[0]);
            add_row(&mut out, row);
        },
        Some(status) => if app.finished {
            let row = match status {
                Status::Success => single(
                    prefixed(
                        " ✓ saved → ",
                        app.cfg.out_path(app.paths.home.as_str()).as_str(),
                    ),
                    Tone::GoodHeading,
                ),
                Status::Aborted => single(" aborted".to_string(), Tone::BadHeading),
                _ => single(prefixed(" ✗ ", status.label().as_str()), Tone::BadHeading),
            };
            add_row(&mut out, row);
            add_row(
                &mut out,
                single(glue(" wall ", wall, "s · n new path · Enter/g regenerate"), Tone::Dim),
            );
        } else {
            add_row(
                &mut out,
                single(" idle — press Enter or g to compose".to_string(), Tone::Dim),
            );
        },
        None => {
            add_row(
                &mut out,
                single(" idle — press Enter or g to compose".to_string(), Tone::Dim),
            );
        },
    }
    let n = app.history.len();
    assert(app@.history.len() == n);
    if n > 0 {
        assert(app@.history.last() == app.history@[n - 1]@);
        let mut s = glue(" last: ", truncate(app.history[n - 1].out.as_str(), 60).as_str(), " (");
        s.append(last);
        s.append("s)");
        add_row(&mut out, single(s, Tone::Dim));
    }
    assert(rows(out@) =~= run_standing(app@, elapsed@, wall@, last@));
    out
}

// --- the tab of the presets ------------------------------------------------------------------------

/// The names of the presets, with the chosen one marked.
pub open spec fn preset_list(v: TuiV) -> Seq<Seq<PieceV>> {
    if v.preset_names.len() == 0 {
        seq![one("  (no presets yet)"@, Tone::Dim)]
    } else {
        Seq::new(
            v.preset_names.len(),
            |i: int|
                if i == v.preset_idx {
                    one(" ▶ "@ + v.preset_names[i], Tone::Strong)
                } else {
                    one("   "@ + v.preset_names[i], Tone::Dim)
                },
        )
    }
}

/// The names of the presets.
pub fn preset_rows(app: &TuiApp) -> (r: Vec<Row>)
    ensures
        rows(r@) == preset_list(app@),
{
    let mut out = no_rows();
    let n = app.preset_names.len();
    assert(app@.preset_names.len() == n);
    if n == 0 {
        add_row(&mut out, single("  (no presets yet)".to_string(), Tone::Dim));
        assert(rows(out@) =~= preset_list(app@));
        return out;
    }
    let ghost all = preset_list(app@);
    let mut i: usize = 0;
    assert(rows(out@) =~= all.take(0));
    while i < n
        invariant
            i <= n == app.preset_names@.len(),
            app@.preset_names.len() == n,
            n > 0,
            all == preset_list(app@),
            rows(out@) == all.take(i as int),
        decreases n - i,
    {
        let name = app.preset_names[i].as_str();
        let row = if i == app.preset_idx {
            single(prefixed(" ▶ ", name), Tone::Strong)
        } else {
            single(prefixed("   ", name), Tone::Dim)
        };
        assert(app@.preset_names[i as int] == name@);
        add_row(&mut out, row);
        i = i + 1;
        assert(all.take(i as int) =~= all.take(i - 1).push(all[i - 1]));
    }
    assert(all.take(i as int) =~= all);
    out
}

/// The rows of all fields: what stands before the label, the label, and a text that goes with the
/// field.
pub open spec fn field_list(
    prefix: Seq<char>,
    label: Tone,
    texts: Seq<Seq<char>>,
    tone: Tone,
) -> Seq<Seq<PieceV>> {
    Seq::new(
        25,
        |i: int|
            seq![
                piece(prefix + padded(LABELS@[ALL_FIELDS@[i].place()]@, 24), label),
                piece(texts[i], tone),
            ],
    )
}

/// The values of all fields, shortened.
pub open spec fn values(c: ConfigV) -> Seq<Seq<char>> {
    Seq::new(25, |i: int| shortened(shown(c, ALL_FIELDS@[i]), 40))
}

/// What all fields mean.
pub open spec fn meanings() -> Seq<Seq<char>> {
    Seq::new(25, |i: int| HELPS@[ALL_FIELDS@[i].place()]@)
}

fn add_fields(out: &mut Vec<Row>, prefix: &str, label: Tone, texts: &Vec<String>, tone: Tone)
    requires
        texts@.len() == 25,
    ensures
        rows(final(out)@) == rows(old(out)@) + field_list(prefix@, label, views(texts@), tone),
{
    let ghost all = field_list(prefix@, label, views(texts@), tone);
    let ghost had = rows(out@);
    let mut i: usize = 0;
    assert(had + all.take(0) =~= had);
    while i < 25
        invariant
            i <= 25 == texts@.len(),
            all == field_list(prefix@, label, views(texts@), tone),
            rows(out@) == had + all.take(i as int),
        decreases 25 - i,
    {
        let mut row = empty_row();
        row.put(prefixed(prefix, pad(ALL_FIELDS[i].label(), 24).as_str()), label);
        row.put(texts[i].clone(), tone);
        assert(views(texts@)[i as int] == texts@[i as int]@);
        assert(row@ =~= all[i as int]);
        add_row(out, row);
        i = i + 1;
        assert(had + all.take(i as int) =~= (had + all.take(i - 1)).push(all[i - 1]));
    }
    assert(all.take(i as int) =~= all);
}

fn list_values(c: &Config) -> (r: Vec<String>)
    ensures
        views(r@) == values(c@),
        r@.len() == 25,
{
    let mut out: Vec<String> = Vec::new();
    let mut i: usize = 0;
    assert(views(out@) =~= values(c@).take(0));
    while i < 25
        invariant
            i <= 25,
            out@.len() == i,
            views(out@) == values(c@).take(i as int),
        decreases 25 - i,
    {
        let ghost had = views(out@);
        let s = truncate(value_string(c, ALL_FIELDS[i]).as_str(), 40);
        out.push(s);
        i = i + 1;
        assert(views(out@) =~= had.push(s@));
        assert(values(c@).take(i as int) =~= values(c@).take(i - 1).push(values(c@)[i - 1]));
    }
    assert(values(c@).take(i as int) =~= values(c@));
    out
}

fn list_meanings() -> (r: Vec<String>)
    ensures
        views(r@) == meanings(),
        r@.len() == 25,
{
    let mut out: Vec<String> = Vec::new();
    let mut i: usize = 0;
    assert(views(out@) =~= meanings().take(0));
    while i < 25
        invariant
            i <= 25,
            out@.len() == i,
            views(out@) == meanings().take(i as int),
        decreases 25 - i,
    {
        let ghost had = views(out@);
        let s = ALL_FIELDS[i].help().to_string();
        out.push(s);
        i = i + 1;
        assert(views(out@) =~= had.push(s@));
        assert(meanings().take(i as int) =~= meanings().take(i - 1).push(meanings()[i - 1]));
    }
    assert(meanings().take(i as int) =~= meanings());
    out
}

/// What is in the chosen preset; how presets are used where none is chosen.
pub open spec fn preset_shown(v: TuiV) -> Seq<Seq<PieceV>> {
    if v.preset_idx < v.preset_names.len() {
        let name = v.preset_names[v.preset_idx as int];
        match found(v.presets, name) {
            Some(c) => seq![one(" "@ + name, Tone::Heading), one(""@, Tone::Plain)] + field_list(
                " "@,
                Tone::Dim,
                values(c),
                Tone::White,
            ),
            None => Seq::<Seq<PieceV>>::empty(),
        }
    } else {
        seq![one("  Enter load · s save current as · d delete · r reset"@, Tone::Dim)]
    }
}

/// What is in the chosen preset.
pub fn preset_detail(app: &TuiApp) -> (r: Vec<Row>)
    ensures
        rows(r@) == preset_shown(app@),
{
    let mut out = no_rows();
    assert(app@.preset_names.len() == app.preset_names@.len());
    if app.preset_idx < app.preset_names.len() {
        let name = app.preset_names[app.preset_idx].as_str();
        assert(app@.preset_names[app.preset_idx as int] == name@);
        if let Some(c) = app.presets.get(name) {
            add_row(&mut out, single(prefixed(" ", name), Tone::Heading));
            add_row(&mut out, single("".to_string(), Tone::Plain));
            add_fields(&mut out, " ", Tone::Dim, &list_values(&c), Tone::White);
        }
    } else {
        add_row(
            &mut out,
            single("  Enter load · s save current as · d delete · r reset".to_string(), Tone::Dim),
        );
    }
    assert(rows(out@) =~= preset_shown(app@));
    out
}

// --- the tab of help -------------------------------------------------------------------------------

/// What is said on moving about.
pub const NAVIGATION: [&'static str; 3] = [
    "Tab / Shift-Tab or 1-6 switch tabs · ↑/↓ move · ←/→ adjust values",
    "Enter edit text / toggle / cycle · Space toggle/cycle · Esc back to Song",
    "g or Ctrl-G generate · a abort · Ctrl-Q quit",
];

/// What is said on the tabs.
pub const WORKFLOW: [&'static str; 5] = [
    "1 Song: style, mood, vocals, caption override, lyrics, length, steps, output",
    "2 Advanced: CFG scales, top-k, seed, flow/perf tuning, memory options",
    "3 Components: backend + which LM / flow / depth GGUF to load",
    "4 Run: preview + warnings, live log, status; regenerate or reroll seed",
    "5 Presets: save/load named configs (stored in ~/.config/lyra/presets.json)",
];

/// The help: moving about, the tabs, every field, and what is wrong with the setup.
pub open spec fn help(v: TuiV) -> Seq<Seq<PieceV>> {
    let gap = seq![one(""@, Tone::Plain)];
    let advice = v.cfg.advice(v.paths);
    seq![one(" Navigation"@, Tone::Title)] + each(
        "   "@,
        texts(NAVIGATION@),
        Tone::Dim,
    ) + gap + seq![one(" The workflow"@, Tone::Title)] + each(
        "   "@,
        texts(WORKFLOW@),
        Tone::Dim,
    ) + gap + seq![one(" Option notes"@, Tone::Title)] + field_list(
        "   "@,
        Tone::Accent,
        meanings(),
        Tone::Dim,
    ) + gap + seq![one(" Model"@, Tone::Title)] + if advice.len() > 0 {
        each("   ⚠ "@, advice, Tone::Bad)
    } else {
        seq![one("   ✓ setup looks good"@, Tone::Good)]
    }
}

/// The help.
pub fn help_rows(app: &TuiApp) -> (r: Vec<Row>)
    ensures
        rows(r@) == help(app@),
{
    let mut out = no_rows();
    add_row(&mut out, single(" Navigation".to_string(), Tone::Title));
    add_each(&mut out, "   ", &to_list(&NAVIGATION), Tone::Dim);
    add_row(&mut out, single("".to_string(), Tone::Plain));
    add_row(&mut out, single(" The workflow".to_string(), Tone::Title));
    add_each(&mut out, "   ", &to_list(&WORKFLOW), Tone::Dim);
    add_row(&mut out, single("".to_string(), Tone::Plain));
    add_row(&mut out, single(" Option notes".to_string(), Tone::Title));
    add_fields(&mut out, "   ", Tone::Accent, &list_meanings(), Tone::Dim);
    add_row(&mut out, single("".to_string(), Tone::Plain));
    add_row(&mut out, single(" Model".to_string(), Tone::Title));
    let advice = app.cfg.warnings(&app.paths);
    assert(views(advice@).len() == advice@.len());
    if advice.len() > 0 {
        add_each(&mut out, "   ⚠ ", &advice, Tone::Bad);
    } else {
        add_row(&mut out, single("   ✓ setup looks good".to_string(), Tone::Good));
    }
    assert(rows(out@) =~= help(app@));
    out
}

// --- the foot and the editor -------------------------------------------------------------------------

/// The foot: what was said last, or the keys.
pub open spec fn foot(v: TuiV) -> Seq<PieceV> {
    match v.status_msg {
        Some(s) => one(" "@ + s, Tone::Accent),
        None => one(
            " Tab switch · ↑/↓ field · ←/→ adjust · Enter edit · g generate · ? help (6) · Ctrl-Q quit"@,
            Tone::Dim,
        ),
    }
}

/// The foot.
pub fn footer(app: &TuiApp) -> (r: Row)
    ensures
        r@ == foot(app@),
{
    match &app.status_msg {
        Some(s) => single(prefixed(" ", s.as_str()), Tone::Accent),
        None => single(
            " Tab switch · ↑/↓ field · ←/→ adjust · Enter edit · g generate · ? help (6) · Ctrl-Q quit".to_string(),
            Tone::Dim,
        ),
    }
}

/// The title of an editor, and what its keys do.
pub open spec fn editing(e: EditorV) -> (Seq<char>, Seq<char>) {
    match e.target {
        EditTarget::Field(f) => (
            " "@ + LABELS@[f.place()]@ + " "@,
            if e.multiline {
                " Enter = new line · Ctrl-Enter or Tab = save · Esc = cancel"@
            } else {
                " Enter = save · Esc = cancel"@
            },
        ),
        EditTarget::PresetName => (" save preset as "@, " Enter = save · Esc = cancel"@),
    }
}

/// The title of an editor, and what its keys do.
pub fn editor_text(e: &Editor) -> (r: (String, &'static str))
    ensures
        (r.0@, r.1@) == editing(e@),
{
    match e.target {
        EditTarget::Field(f) => (
            glue(" ", f.label(), " "),
            if e.multiline {
                " Enter = new line · Ctrl-Enter or Tab = save · Esc = cancel"
            } else {
                " Enter = save · Esc = cancel"
            },
        ),
        EditTarget::PresetName => (
            " save preset as ".to_string(),
            " Enter = save · Esc = cancel",
        ),
    }
}

/// How wide and how high the box of an editor is meant to be.
pub open spec fn meant_size(e: EditorV) -> (u16, u16) {
    (
        70,
        if e.multiline {
            60
        } else {
            20
        },
    )
}

/// How wide and how high the box of an editor is meant to be.
pub fn editor_size(e: &Editor) -> (r: (u16, u16))
    ensures
        r == meant_size(e@),
{
    if e.multiline {
        (70, 60)
    } else {
        (70, 20)
    }
}

} // verus!
