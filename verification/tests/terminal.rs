use lyra::config::Config;
use lyra::detect::{probes, Disk, Paths};
use lyra::double::make;
use lyra::edit::{set_text, value_string};
use lyra::field::{Field, ALL_FIELDS};
use lyra::history::HistoryEntry;
use lyra::presets::Presets;
use lyra::runner::Status;
use lyra::tui::{Action, EditTarget, Key, KeyCode, Tab, TuiApp};
use lyra::view::{
    detail, editor_size, editor_text, footer, form_rows, group_name, help_rows, preset_detail,
    preset_rows, preview, run_head, run_log, run_status, tab_bar, Row, Tone, SPINNER,
};

fn paths() -> Paths {
    Paths {
        home: "/home/u".to_string(),
        bin: "/bin/audiocpp_cli".to_string(),
        model_dir: "/m".to_string(),
        backend: "cuda".to_string(),
        language_model: Some("language_model_q4_k.gguf".to_string()),
        flow_transformer: None,
        depth_decoder: None,
        disk: Disk { bin_exists: true, model_is_dir: true, names: probes(), existing: probes() },
    }
}

fn app() -> TuiApp {
    TuiApp::new(paths(), Presets::new(), Vec::new(), 1000)
}

fn key(code: KeyCode) -> Key {
    Key { code, ctrl: false, press: true }
}

fn ctrl(c: char) -> Key {
    Key { code: KeyCode::Char(c), ctrl: true, press: true }
}

fn press(a: &mut TuiApp, code: KeyCode) -> Action {
    assert!(a.can_take(key(code)));
    a.on_key(key(code), 2000, 99)
}

fn type_in(a: &mut TuiApp, s: &str) {
    for c in s.chars() {
        press(a, KeyCode::Char(c));
    }
}

fn text(r: &Row) -> String {
    r.pieces.iter().map(|p| p.text.clone()).collect()
}

fn texts(rows: &[Row]) -> Vec<String> {
    rows.iter().map(text).collect()
}

#[test]
fn starts_with_what_was_found() {
    let a = app();
    assert!(a.tab == Tab::Song && a.selected == 0 && a.edit.is_none());
    assert_eq!(a.cfg.out, "~/Music/lyra-1000.wav");
    assert_eq!(a.cfg.lm_gguf, "language_model_q4_k.gguf");
    assert_eq!(a.cfg.flow_gguf, "");
}

#[test]
fn tabs_are_switched_around_the_end() {
    let mut a = app();
    press(&mut a, KeyCode::BackTab);
    assert!(a.tab == Tab::Help);
    press(&mut a, KeyCode::Tab);
    assert!(a.tab == Tab::Song);
    for _ in 0..6 {
        press(&mut a, KeyCode::Tab);
    }
    assert!(a.tab == Tab::Song);
    press(&mut a, KeyCode::Char('4'));
    assert!(a.tab == Tab::Run);
    press(&mut a, KeyCode::Char('9'));
    assert!(a.tab == Tab::Run);
    press(&mut a, KeyCode::Char('?'));
    assert!(a.tab == Tab::Help);
}

#[test]
fn fields_are_moved_and_adjusted() {
    let mut a = app();
    press(&mut a, KeyCode::Up);
    assert_eq!(a.selected, 0);
    press(&mut a, KeyCode::Char('j'));
    assert_eq!(a.selected, 1);
    press(&mut a, KeyCode::Right);
    assert_eq!(a.cfg.mood, 1);
    press(&mut a, KeyCode::Char('h'));
    press(&mut a, KeyCode::Left);
    assert_eq!(a.cfg.mood, 7);
    for _ in 0..20 {
        press(&mut a, KeyCode::Down);
    }
    assert_eq!(a.selected, 7);
    a.selected = 5;
    match press(&mut a, KeyCode::Right) {
        Action::Adjust(f, d) => assert!(f == Field::Duration && d == 1),
        _ => panic!("no adjustment"),
    }
    press(&mut a, KeyCode::Char('2'));
    a.selected = 9;
    press(&mut a, KeyCode::Enter);
    assert!(!a.cfg.mem_saver);
    press(&mut a, KeyCode::Char(' '));
    assert!(a.cfg.mem_saver);
    press(&mut a, KeyCode::Esc);
    assert!(a.tab == Tab::Song && a.selected == 9);
    for code in [KeyCode::Left, KeyCode::Enter, KeyCode::Char(' '), KeyCode::Char('l')] {
        assert!(!a.can_take(key(code)));
    }
    assert!(a.can_take(key(KeyCode::Char('g'))));
    assert_eq!(detail(&a).0, "");
    press(&mut a, KeyCode::Up);
    assert_eq!(a.selected, 8);
    press(&mut a, KeyCode::Down);
    assert_eq!(a.selected, 7);
    assert!(a.can_take(key(KeyCode::Left)));
}

#[test]
fn released_keys_do_nothing() {
    let mut a = app();
    let up = Key { code: KeyCode::Tab, ctrl: false, press: false };
    assert!(matches!(a.on_key(up, 0, 0), Action::Nothing));
    assert!(a.tab == Tab::Song);
}

#[test]
fn editor_saves_or_cancels() {
    let mut a = app();
    a.selected = 3;
    press(&mut a, KeyCode::Enter);
    assert!(a.edit.is_some());
    type_in(&mut a, "my g song?");
    assert!(matches!(press(&mut a, KeyCode::Enter), Action::Nothing));
    assert!(a.edit.is_none());
    assert_eq!(a.cfg.caption_override, "my g song?");
    press(&mut a, KeyCode::Enter);
    press(&mut a, KeyCode::Backspace);
    press(&mut a, KeyCode::Esc);
    assert!(a.edit.is_none());
    assert_eq!(a.cfg.caption_override, "my g song?");
    assert!(a.tab == Tab::Song);
}

#[test]
fn lyrics_editor_takes_lines() {
    let mut a = app();
    a.cfg.lyrics = "x".to_string();
    a.selected = 4;
    press(&mut a, KeyCode::Enter);
    press(&mut a, KeyCode::Enter);
    type_in(&mut a, "y");
    a.on_key(ctrl('z'), 0, 0);
    press(&mut a, KeyCode::Home);
    press(&mut a, KeyCode::Delete);
    type_in(&mut a, "w");
    press(&mut a, KeyCode::Tab);
    assert_eq!(a.cfg.lyrics, "w\ny");
    press(&mut a, KeyCode::Enter);
    type_in(&mut a, "!");
    a.on_key(Key { code: KeyCode::Enter, ctrl: true, press: true }, 0, 0);
    assert_eq!(a.cfg.lyrics, "w\ny!");
}

#[test]
fn opening_and_saving_changes_nothing() {
    let mut a = app();
    for tab in ['1', '2'] {
        press(&mut a, KeyCode::Char(tab));
        let n = if tab == '1' { 8 } else { 13 };
        for i in 0..n {
            a.selected = i;
            let before: Vec<String> = ALL_FIELDS.iter().map(|f| value_string(&a.cfg, *f)).collect();
            let f = a.tab.field(i);
            if matches!(f.kind().as_str(), "select" | "bool") {
                continue;
            }
            press(&mut a, KeyCode::Enter);
            assert!(a.edit.is_some());
            let end = if f == Field::Lyrics { KeyCode::Tab } else { KeyCode::Enter };
            match press(&mut a, end) {
                Action::SetNumber(g, s) => {
                    let v: f64 = s.parse().unwrap();
                    set_text(&mut a.cfg, g, s.as_str(), Some(make(v.to_bits(), s.as_str())));
                }
                _ => {}
            }
            let after: Vec<String> = ALL_FIELDS.iter().map(|f| value_string(&a.cfg, *f)).collect();
            assert_eq!(before, after);
        }
    }
}

#[test]
fn custom_style_is_typed() {
    let mut a = app();
    press(&mut a, KeyCode::Left);
    assert_eq!(a.cfg.genre, 7);
    press(&mut a, KeyCode::Enter);
    type_in(&mut a, "dub");
    press(&mut a, KeyCode::Enter);
    assert_eq!(a.cfg.genre, 7);
    assert_eq!(a.cfg.genre_custom, "dub");
    assert_eq!(value_string(&a.cfg, Field::Genre), "dub");
}

#[test]
fn generation_is_refused_or_started() {
    let mut a = app();
    assert!(matches!(press(&mut a, KeyCode::Char('g')), Action::Launch));
    a.launched();
    assert!(a.tab == Tab::Run && a.job == Some(Status::Running));
    assert!(matches!(a.on_key(ctrl('g'), 0, 0), Action::Nothing));
    assert_eq!(a.status_msg.as_deref(), Some("already generating — press a to abort"));
    assert!(matches!(press(&mut a, KeyCode::Char('a')), Action::Abort));
    let mut b = app();
    b.cfg.out = "".to_string();
    b.paths.disk.bin_exists = false;
    assert!(matches!(b.generate(), Action::Nothing));
    assert_eq!(
        b.status_msg.as_deref(),
        Some("cannot generate: output path is empty; audiocpp_cli not found at /bin/audiocpp_cli")
    );
    b.launch_failed("no such file");
    assert_eq!(b.status_msg.as_deref(), Some("launch failed: no such file"));
    assert!(matches!(press(&mut b, KeyCode::Char('a')), Action::Nothing));
}

#[test]
fn quitting_aborts_a_running_job() {
    let mut a = app();
    assert!(matches!(a.on_key(ctrl('q'), 0, 0), Action::Nothing));
    assert!(a.should_quit);
    let mut b = app();
    b.launched();
    assert!(matches!(b.on_key(ctrl('c'), 0, 0), Action::Abort));
    assert!(b.should_quit);
}

#[test]
fn reset_keeps_the_output_path() {
    let mut a = app();
    a.cfg.out = "/keep.wav".to_string();
    a.cfg.mood = 4;
    press(&mut a, KeyCode::Char('r'));
    assert_eq!(a.cfg.out, "/keep.wav");
    assert_eq!(a.cfg.mood, 0);
    assert_eq!(a.cfg.lm_gguf, "language_model_q4_k.gguf");
    press(&mut a, KeyCode::Char('5'));
    press(&mut a, KeyCode::Char('r'));
    assert_eq!(a.cfg.out, "~/Music/lyra-2000.wav");
    assert_eq!(a.status_msg.as_deref(), Some("reset to defaults"));
}

#[test]
fn run_tab_rerolls_and_scrolls() {
    let mut a = app();
    press(&mut a, KeyCode::Char('4'));
    press(&mut a, KeyCode::Char('s'));
    assert_eq!(a.cfg.seed, 99);
    press(&mut a, KeyCode::Char('n'));
    assert_eq!(a.cfg.out, "~/Music/lyra-2000.wav");
    press(&mut a, KeyCode::Up);
    press(&mut a, KeyCode::Char('k'));
    assert_eq!(a.log_offset, 2);
    press(&mut a, KeyCode::Down);
    assert_eq!(a.log_offset, 1);
    press(&mut a, KeyCode::End);
    assert_eq!(a.log_offset, 0);
    press(&mut a, KeyCode::Down);
    assert_eq!(a.log_offset, 0);
    assert!(matches!(press(&mut a, KeyCode::Enter), Action::Launch));
    assert!(matches!(press(&mut a, KeyCode::Char('x')), Action::Nothing));
    press(&mut a, KeyCode::Esc);
    assert!(a.tab == Tab::Song);
}

#[test]
fn presets_are_saved_loaded_and_deleted() {
    let mut a = app();
    press(&mut a, KeyCode::Char('5'));
    press(&mut a, KeyCode::Char('s'));
    type_in(&mut a, "  ");
    assert!(matches!(press(&mut a, KeyCode::Enter), Action::Nothing));
    a.cfg.mood = 3;
    press(&mut a, KeyCode::Char('s'));
    type_in(&mut a, " b ");
    assert!(matches!(press(&mut a, KeyCode::Enter), Action::SavePresets));
    assert_eq!(a.status_msg.as_deref(), Some("saved preset 'b'"));
    a.cfg.mood = 5;
    press(&mut a, KeyCode::Char('s'));
    type_in(&mut a, "a");
    press(&mut a, KeyCode::Enter);
    assert_eq!(a.preset_names, vec!["a".to_string(), "b".to_string()]);
    press(&mut a, KeyCode::Down);
    press(&mut a, KeyCode::Down);
    assert_eq!(a.preset_idx, 1);
    press(&mut a, KeyCode::Enter);
    assert_eq!(a.cfg.mood, 3);
    assert_eq!(a.status_msg.as_deref(), Some("loaded preset 'b'"));
    assert_eq!(texts(&preset_rows(&a)), vec!["   a".to_string(), " ▶ b".to_string()]);
    let shown = texts(&preset_detail(&a));
    assert_eq!(shown.len(), 27);
    assert_eq!(shown[0], " b");
    assert!(shown[3].starts_with(" Mood                    "));
    assert!(matches!(press(&mut a, KeyCode::Char('d')), Action::SavePresets));
    assert_eq!(a.preset_names, vec!["a".to_string()]);
    assert_eq!(a.preset_idx, 0);
    press(&mut a, KeyCode::Char('d'));
    assert!(a.preset_names.is_empty());
    assert!(matches!(press(&mut a, KeyCode::Char('d')), Action::Nothing));
    assert!(matches!(press(&mut a, KeyCode::Enter), Action::Nothing));
    assert_eq!(texts(&preset_rows(&a)), vec!["  (no presets yet)".to_string()]);
    assert_eq!(preset_detail(&a).len(), 1);
}

#[test]
fn ticks_follow_the_job() {
    let mut a = app();
    assert!(matches!(a.on_tick(None), Action::Nothing));
    assert_eq!(a.spinner, 1);
    a.launched();
    let line = vec!["hello".to_string()];
    assert!(matches!(a.on_tick(Some((Status::Running, line.clone()))), Action::Nothing));
    assert_eq!(a.log, line);
    assert!(matches!(a.on_tick(Some((Status::Failed(2), line.clone()))), Action::Record));
    assert!(a.finished);
    assert_eq!(a.status_msg.as_deref(), Some("failed (exit 2)"));
    assert!(matches!(a.on_tick(Some((Status::Failed(2), line))), Action::Nothing));
}

#[test]
fn tab_bar_marks_the_open_tab() {
    let mut a = app();
    a.cfg.caption_override = "c".repeat(70);
    press(&mut a, KeyCode::Char('3'));
    let bar = tab_bar(&a);
    assert_eq!(bar.pieces.len(), 14);
    assert_eq!(bar.pieces[0].text, " ✦ Lyra ");
    assert_eq!(bar.pieces[6].text, " 3 Components ");
    assert!(bar.pieces[6].tone == Tone::Active);
    assert!(bar.pieces[2].tone == Tone::Dim);
    assert_eq!(bar.pieces[13].text, format!("   {}", "c".repeat(60)));
}

#[test]
fn form_shows_every_field_of_the_tab() {
    let mut a = app();
    a.selected = 1;
    let rows = form_rows(&a);
    assert_eq!(rows.len(), 9);
    assert_eq!(text(&rows[0]), "  Song ");
    assert_eq!(text(&rows[2]), "▶ Mood                    uplifting");
    assert!(rows[2].pieces[1].tone == Tone::Strong);
    assert!(rows[1].pieces[1].tone == Tone::Dim);
    assert!(rows[2].pieces[2].tone == Tone::Accent);
    press(&mut a, KeyCode::Char('2'));
    let more = form_rows(&a);
    assert_eq!(more.len(), 14);
    assert_eq!(text(&more[0]), format!("  {} ", group_name(Field::Seed.group())));
    assert!(more[10].pieces[2].tone == Tone::Good);
    assert!(more[11].pieces[2].tone == Tone::Dim);
    let (title, said) = detail(&a);
    assert_eq!(title, format!(" {} ", Field::Guidance.label()));
    assert_eq!(text(&said[0]), format!(" {}", Field::Guidance.help()));
    press(&mut a, KeyCode::Char('6'));
    assert!(form_rows(&a).is_empty());
    assert_eq!(detail(&a).0, "");
}

#[test]
fn preview_shows_caption_lyrics_and_warnings() {
    let mut a = app();
    a.cfg.caption_override = "one two three four".to_string();
    a.cfg.lyrics = "a\nb".to_string();
    let rows = texts(&preview(&a, 12));
    assert_eq!(
        rows,
        vec![
            " Caption".to_string(),
            "  one two".to_string(),
            "  three".to_string(),
            "  four".to_string(),
            "".to_string(),
            " Lyrics".to_string(),
            "  a".to_string(),
            "  b".to_string(),
        ]
    );
    a.cfg.lyrics = (0..20).map(|i| format!("{i}\n")).collect();
    a.cfg.out = "".to_string();
    let long = texts(&preview(&a, 80));
    assert_eq!(long.len(), 2 + 2 + 12 + 3);
    assert_eq!(long[18], "  • output path is empty");
}

#[test]
fn run_tab_shows_command_log_and_status() {
    let mut a = app();
    let head = texts(&run_head(&a));
    assert_eq!(head[0], " command");
    assert!(head[1].starts_with("  /bin/audiocpp_cli --task gen --family minimax_music3"));
    assert!(head[1].contains("⏎"));
    assert_eq!(
        texts(&run_status(&a, "0", "0.0", "0.0")),
        vec![" idle — press Enter or g to compose".to_string()]
    );
    a.launched();
    a.log = vec!["l1".to_string(), "l2".to_string(), "l3".to_string()];
    a.spinner = 3;
    assert_eq!(
        texts(&run_status(&a, "12", "0.0", "0.0")),
        vec![format!(" {} composing…  12s   a abort", SPINNER[1])]
    );
    let (title, seen) = run_log(&a, 2);
    assert_eq!(title, " log ");
    assert_eq!(texts(&seen), vec!["l2".to_string(), "l3".to_string()]);
    a.log_offset = 1;
    assert_eq!(texts(&run_log(&a, 2).1), vec!["l1".to_string(), "l2".to_string()]);
    a.on_tick(Some((Status::Success, vec!["end".to_string()])));
    assert_eq!(run_log(&a, 2).0, " log · success ");
    a.history.push(
        HistoryEntry {
            at: 1,
            out: "o.wav".to_string(),
            caption: "".to_string(),
            success: true,
            wall_ms: make(0, "0"),
        },
    );
    assert_eq!(
        texts(&run_status(&a, "0", "3.5", "3.5")),
        vec![
            " ✓ saved → /home/u/Music/lyra-1000.wav".to_string(),
            " wall 3.5s · n new path · Enter/g regenerate".to_string(),
            " last: o.wav (3.5s)".to_string(),
        ]
    );
    a.job = Some(Status::Failed(1));
    assert_eq!(texts(&run_status(&a, "0", "3.5", "3.5"))[0], " ✗ failed (exit 1)");
    a.job = Some(Status::Aborted);
    assert_eq!(texts(&run_status(&a, "0", "3.5", "3.5"))[0], " aborted");
}

#[test]
fn help_explains_every_field() {
    let mut a = app();
    let rows = texts(&help_rows(&a));
    for f in ALL_FIELDS {
        assert!(rows.iter().any(|r| r.contains(f.label()) && r.contains(f.help())));
    }
    assert_eq!(rows[0], " Navigation");
    assert_eq!(rows[rows.len() - 1], "   ✓ setup looks good");
    a.paths.disk.bin_exists = false;
    let bad = texts(&help_rows(&a));
    assert_eq!(bad[bad.len() - 1], "   ⚠ audiocpp_cli not found at /bin/audiocpp_cli");
}

#[test]
fn foot_says_what_happened() {
    let mut a = app();
    assert!(text(&footer(&a)).starts_with(" Tab switch"));
    a.status_msg = Some("hi".to_string());
    assert_eq!(text(&footer(&a)), " hi");
}

#[test]
fn editor_tells_its_keys() {
    let mut a = app();
    a.selected = 4;
    press(&mut a, KeyCode::Enter);
    let e = a.edit.as_ref().unwrap();
    let (title, hint) = editor_text(e);
    assert_eq!(title, " Lyrics ");
    assert!(hint.contains("Tab = save"));
    assert_eq!(editor_size(e), (70, 60));
    press(&mut a, KeyCode::Esc);
    press(&mut a, KeyCode::Char('5'));
    press(&mut a, KeyCode::Char('s'));
    let p = a.edit.as_ref().unwrap();
    assert!(p.target == EditTarget::PresetName);
    assert_eq!(editor_text(p).0, " save preset as ");
    assert_eq!(editor_size(p), (70, 20));
}

#[test]
fn unused_settings_are_not_touched() {
    let mut a = app();
    let fresh = Config::with_out("~/Music/lyra-1000.wav".to_string());
    press(&mut a, KeyCode::Char('z'));
    press(&mut a, KeyCode::Other);
    assert_eq!(a.cfg.lyrics, fresh.lyrics);
    assert_eq!(a.cfg.out, fresh.out);
}
