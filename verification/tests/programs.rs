//! The program registry, driven from outside.
use cs_tui::config::Config;
use cs_tui::key::{KeyCode, KeyEvent};
use cs_tui::list::ListBody;
use cs_tui::programs::{
    default_save_path, gallery_status, program_row, undisplayable_source_lines, wrapped_rows,
    Program, ProgramSource, ProgramsIntent, ProgramsMode, ProgramsPane, ProgramsScreen,
    PublishForm, Runtime, Scope, SourceError, MAX_AUTO_PAGES,
};
use cs_tui::theme::Theme;

fn key(code: KeyCode) -> KeyEvent {
    KeyEvent { code, control: false }
}

fn ctrl(code: KeyCode) -> KeyEvent {
    KeyEvent { code, control: true }
}

fn program(id: &str, name: &str) -> Program {
    Program {
        id: id.into(),
        name: name.into(),
        owner_username: "trinity".into(),
        description: "does a thing".into(),
        runtime: Runtime::Term,
        release: 3,
        ..Default::default()
    }
}

fn source_at(release: u32) -> ProgramSource {
    ProgramSource {
        id: "p1".into(),
        name: "hello".into(),
        runtime: Runtime::Term,
        release,
        encoding: "utf8".into(),
        source: "line\n".repeat(50),
    }
}

fn loaded(items: Vec<Program>) -> ProgramsScreen {
    let mut s = ProgramsScreen::new();
    s.apply_initial(Ok((items, None)));
    s
}

#[test]
fn the_gallery_starts_public_and_unfiltered() {
    let s = ProgramsScreen::new();
    assert_eq!(s.scope, Scope::Gallery);
    let q = s.query();
    assert!(!q.mine);
    assert!(
        q.runtimes.is_empty(),
        "cs-tui runs none of them, so it asks for every kind"
    );
}

#[test]
fn m_toggles_the_scope_and_reloads() {
    let mut s = loaded(vec![program("p1", "hello")]);
    let intent = s.handle_key(key(KeyCode::Char('m')));
    assert_eq!(s.scope, Scope::Mine);
    match intent {
        ProgramsIntent::Reload { query } => assert!(query.mine),
        other => panic!("expected a reload, got {other:?}"),
    }
    assert!(s.list.loading);

    s.handle_key(key(KeyCode::Char('m')));
    assert_eq!(s.scope, Scope::Gallery);
}

#[test]
fn t_cycles_the_runtime_filter_through_every_kind_and_back() {
    let mut s = loaded(vec![program("p1", "hello")]);
    for expected in [
        Some(Runtime::Web),
        Some(Runtime::Term),
        Some(Runtime::Wasm),
        None,
    ] {
        s.handle_key(key(KeyCode::Char('t')));
        let wanted: Vec<Runtime> = expected.into_iter().collect();
        assert_eq!(s.query().runtimes, wanted);
    }
}

#[test]
fn enter_opens_the_source_and_asks_for_the_current_release() {
    let mut s = loaded(vec![program("p1", "hello")]);
    let intent = s.handle_key(key(KeyCode::Enter));
    assert_eq!(
        intent,
        ProgramsIntent::LoadSource {
            program_id: "p1".into(),
            release: None,
        },
        "a plain read asks for nothing and gets the current release"
    );
    assert!(matches!(s.mode, ProgramsMode::Source { loading: true, .. }));
}

#[test]
fn the_release_that_came_back_is_the_one_the_screen_walks_from() {
    let mut s = loaded(vec![program("p1", "hello")]);
    s.handle_key(key(KeyCode::Enter));
    s.apply_source(
        "p1",
        Ok(ProgramSource {
            id: "p1".into(),
            name: "hello".into(),
            runtime: Runtime::Term,
            release: 3,
            encoding: "utf8".into(),
            source: "export default 1".into(),
            ..Default::default()
        }),
    );

    // `,` steps back through the history…
    assert_eq!(
        s.handle_key(key(KeyCode::Char(','))),
        ProgramsIntent::LoadSource {
            program_id: "p1".into(),
            release: Some(2),
        }
    );
    // …and stops at the first one rather than asking for release 0.
    s.apply_source(
        "p1",
        Ok(ProgramSource {
            release: 1,
            encoding: "utf8".into(),
            source: "v1".into(),
            ..Default::default()
        }),
    );
    assert!(matches!(
        s.handle_key(key(KeyCode::Char(','))),
        ProgramsIntent::Warn(_)
    ));
}

#[test]
fn the_source_view_avoids_the_keys_the_shell_takes_first() {
    // The shell hands `[` and `]` to the jukebox volume, `i` to the image
    // toggle, `S` to shuffle and `s` to the player stop, all before the
    // screen is asked. A binding on any of them would simply never fire
    // while music was playing.
    let mut s = loaded(vec![program("p1", "hello")]);
    s.handle_key(key(KeyCode::Enter));
    s.apply_source(
        "p1",
        Ok(ProgramSource {
            release: 3,
            encoding: "utf8".into(),
            source: "x".into(),
            ..Default::default()
        }),
    );
    for stolen in ['[', ']', 'i', 'S', 's', 'p', '<', '>'] {
        assert_eq!(
            s.handle_key(key(KeyCode::Char(stolen))),
            ProgramsIntent::Nothing,
            "{stolen} must not be load-bearing here"
        );
    }
    // The keys it does use still work.
    assert_eq!(
        s.handle_key(key(KeyCode::Char(','))),
        ProgramsIntent::LoadSource {
            program_id: "p1".into(),
            release: Some(2),
        }
    );
}

#[test]
fn a_recall_is_refused_outside_your_own_listing() {
    // The gallery shows everybody's programs; `d` there would be a 403.
    let mut s = loaded(vec![program("p1", "hello")]);
    assert!(matches!(
        s.handle_key(key(KeyCode::Char('d'))),
        ProgramsIntent::Warn(_)
    ));
    assert!(matches!(s.mode, ProgramsMode::Gallery));
}

#[test]
fn recalling_and_deleting_each_take_a_confirm() {
    let mut p = program("p1", "hello");
    p.is_published = Some(true);
    let mut s = loaded(vec![p]);
    s.scope = Scope::Mine;
    s.loaded_scope = Scope::Mine;

    s.handle_key(key(KeyCode::Char('d')));
    match &s.mode {
        ProgramsMode::ConfirmRecall {
            program_id, purge, ..
        } => {
            assert_eq!(program_id, "p1");
            assert!(!purge);
        }
        other => panic!("expected a confirm, got {other:?}"),
    }
    assert_eq!(
        s.handle_key(key(KeyCode::Char('y'))),
        ProgramsIntent::Recall {
            program_id: "p1".into(),
            purge: false,
        }
    );

    s.handle_key(key(KeyCode::Char('D')));
    assert_eq!(
        s.handle_key(key(KeyCode::Char('y'))),
        ProgramsIntent::Recall {
            program_id: "p1".into(),
            purge: true,
        }
    );
}

#[test]
fn anything_but_y_cancels_a_destructive_confirm() {
    let mut p = program("p1", "hello");
    p.is_published = Some(true);
    let mut s = loaded(vec![p]);
    s.scope = Scope::Mine;
    s.loaded_scope = Scope::Mine;

    for cancel in [KeyCode::Esc, KeyCode::Enter, KeyCode::Char('n')] {
        s.handle_key(key(KeyCode::Char('D')));
        assert!(matches!(s.mode, ProgramsMode::ConfirmRecall { .. }));
        assert_eq!(s.handle_key(key(cancel)), ProgramsIntent::Nothing);
        assert!(matches!(s.mode, ProgramsMode::Gallery), "{cancel:?}");
    }
}

#[test]
fn a_taken_down_program_cannot_be_deleted() {
    let mut p = program("p1", "hello");
    p.is_published = Some(false);
    p.taken_down = Some(true);
    let mut s = loaded(vec![p]);
    s.scope = Scope::Mine;
    s.loaded_scope = Scope::Mine;
    assert!(matches!(
        s.handle_key(key(KeyCode::Char('D'))),
        ProgramsIntent::Warn(_)
    ));
}

#[test]
fn recalling_a_program_that_is_already_out_says_which_key_to_use() {
    let mut p = program("p1", "hello");
    p.is_published = Some(false);
    let mut s = loaded(vec![p]);
    s.scope = Scope::Mine;
    s.loaded_scope = Scope::Mine;
    match s.handle_key(key(KeyCode::Char('d'))) {
        ProgramsIntent::Warn(msg) => assert!(msg.contains('D'), "{msg}"),
        other => panic!("expected a warning, got {other:?}"),
    }
}

#[test]
fn the_publish_form_refuses_what_the_spec_states_flatly() {
    let mut s = loaded(Vec::new());
    s.handle_key(key(KeyCode::Char('P')));
    assert!(matches!(s.mode, ProgramsMode::Publish(_)));

    // Empty: nothing is sent and the reason is on screen.
    assert_eq!(s.handle_key(key(KeyCode::Enter)), ProgramsIntent::Nothing);
    let ProgramsMode::Publish(form) = &s.mode else {
        panic!("still the form");
    };
    assert!(form.error.is_some());
    assert!(!form.submitting);
}

#[test]
fn a_filled_publish_form_sends_what_the_endpoint_takes() {
    let mut s = loaded(Vec::new());
    s.handle_key(key(KeyCode::Char('P')));
    let ProgramsMode::Publish(form) = &mut s.mode else {
        panic!("the form");
    };
    form.name = " hello ".into();
    form.description = " says hi ".into();
    form.source_path = " ./hello.js ".into();
    form.runtime = Runtime::Term;

    assert_eq!(
        s.handle_key(key(KeyCode::Enter)),
        ProgramsIntent::Publish {
            name: "hello".into(),
            description: "says hi".into(),
            runtime: Runtime::Term,
            note: None,
            source_path: "./hello.js".into(),
        },
        "every field is trimmed, and a blank note is omitted"
    );
}

#[test]
fn the_runtime_field_cycles_without_ever_landing_on_unknown() {
    let mut s = loaded(Vec::new());
    s.handle_key(key(KeyCode::Char('P')));
    let ProgramsMode::Publish(form) = &mut s.mode else {
        panic!("the form");
    };
    form.focused = 2; // the runtime field
    assert_eq!(form.runtime, Runtime::Web, "the documented default");
    for expected in [Runtime::Term, Runtime::Wasm, Runtime::Web] {
        s.handle_key(key(KeyCode::Char(' ')));
        let ProgramsMode::Publish(form) = &s.mode else {
            panic!("the form");
        };
        assert_eq!(form.runtime, expected);
    }
}

#[test]
fn the_form_and_the_save_prompt_capture_text_but_the_gallery_does_not() {
    // Otherwise a `t` typed into a program name would cycle the runtime
    // filter behind the form.
    let mut s = loaded(Vec::new());
    assert!(!s.is_text_input());
    s.handle_key(key(KeyCode::Char('P')));
    assert!(s.is_text_input());
}

#[test]
fn saving_offers_a_filename_that_matches_the_runtime() {
    let js = ProgramSource {
        name: "hello".into(),
        runtime: Runtime::Term,
        ..Default::default()
    };
    assert_eq!(default_save_path(&js), "hello.js");

    let wasm = ProgramSource {
        name: "hello".into(),
        runtime: Runtime::Wasm,
        ..Default::default()
    };
    assert_eq!(default_save_path(&wasm), "hello.wasm");

    // A nameless program still gets a usable path rather than ".js".
    assert_eq!(default_save_path(&ProgramSource::default()), "program.js");
}

#[test]
fn scrolling_the_source_never_underflows() {
    let mut s = loaded(vec![program("p1", "hello")]);
    s.handle_key(key(KeyCode::Enter));
    s.apply_source(
        "p1",
        Ok(ProgramSource {
            release: 1,
            encoding: "utf8".into(),
            source: "line\n".repeat(50),
            ..Default::default()
        }),
    );
    s.handle_key(key(KeyCode::Char('k')));
    s.handle_key(key(KeyCode::PageUp));
    let ProgramsMode::Source { scroll, .. } = &s.mode else {
        panic!("the source view");
    };
    assert_eq!(*scroll, 0);
}

#[test]
fn a_failed_source_load_is_shown_rather_than_leaving_it_spinning() {
    let mut s = loaded(vec![program("p1", "hello")]);
    s.handle_key(key(KeyCode::Enter));
    s.apply_source("p1", Err("403 forbidden".into()));
    match &s.mode {
        ProgramsMode::Source { loading, error, .. } => {
            assert!(!loading);
            assert_eq!(error.as_deref(), Some("403 forbidden"));
        }
        other => panic!("expected the source view, got {other:?}"),
    }
}

#[test]
fn walking_forward_through_the_release_history_works_and_stops_at_the_top() {
    let mut s = loaded(vec![program("p1", "hello")]); // release 3
    s.handle_key(key(KeyCode::Enter));
    s.apply_source("p1", Ok(source_at(1)));

    assert_eq!(
        s.handle_key(key(KeyCode::Char('.'))),
        ProgramsIntent::LoadSource {
            program_id: "p1".into(),
            release: Some(2),
        }
    );
    s.apply_source("p1", Ok(source_at(3)));
    assert!(
        matches!(
            s.handle_key(key(KeyCode::Char('.'))),
            ProgramsIntent::Warn(_)
        ),
        "the listing's release is the top of the history"
    );
}

#[test]
fn a_source_response_for_another_program_is_ignored() {
    // Open A, back out, open B: A's slower response must not be painted
    // into B's view, which would show A's code under B's name and leave `,`
    // walking a history B does not have.
    let mut s = loaded(vec![program("p1", "alpha"), program("p2", "beta")]);
    s.list.selected = 1;
    s.handle_key(key(KeyCode::Enter)); // opens p2

    s.apply_source(
        "p1",
        Ok(ProgramSource {
            id: "p1".into(),
            name: "alpha".into(),
            release: 5,
            encoding: "utf8".into(),
            source: "alpha source".into(),
            ..Default::default()
        }),
    );
    match &s.mode {
        ProgramsMode::Source {
            program,
            source,
            loading,
            ..
        } => {
            assert_eq!(program.id, "p2");
            assert!(source.is_none(), "beta's view is untouched");
            assert!(loading, "and is still waiting for its own response");
        }
        other => panic!("expected the source view, got {other:?}"),
    }
}

#[test]
fn scrolling_is_clamped_to_the_content() {
    let mut s = loaded(vec![program("p1", "hello")]);
    s.handle_key(key(KeyCode::Enter));
    s.apply_source("p1", Ok(source_at(1)));
    // Before a render there is no measured content, so the floor is 0 and
    // scrolling cannot push the body off into blank space.
    for _ in 0..30 {
        s.handle_key(key(KeyCode::PageDown));
    }
    let ProgramsMode::Source { scroll, .. } = &s.mode else {
        panic!("the source view");
    };
    assert_eq!(*scroll, 0);
}

#[test]
fn the_recall_keys_follow_the_rows_on_screen_not_the_scope_flag() {
    let mut s = loaded(vec![program("p1", "someone-elses")]);
    assert_eq!(s.loaded_scope, Scope::Gallery);

    s.handle_key(key(KeyCode::Char('m')));
    assert_eq!(s.scope, Scope::Mine);
    // Switching listings drops the rows that belonged to the old one.
    assert!(s.list.items.is_empty());

    // A failed reload leaves nothing to act on, and the scope the rows were
    // fetched under has not moved.
    s.apply_initial(Err("503".into()));
    assert_eq!(s.loaded_scope, Scope::Gallery);
    assert!(matches!(
        s.handle_key(key(KeyCode::Char('D'))),
        ProgramsIntent::Warn(_)
    ));

    // Once a `mine` page actually lands, the keys arm.
    let mut mine = program("p9", "mine");
    mine.is_published = Some(true);
    s.apply_initial(Ok((vec![mine], None)));
    assert_eq!(s.loaded_scope, Scope::Mine);
    s.handle_key(key(KeyCode::Char('D')));
    assert!(matches!(s.mode, ProgramsMode::ConfirmRecall { .. }));
}

#[test]
fn a_taken_down_program_says_so_on_both_keys() {
    let mut p = program("p1", "hello");
    p.is_published = Some(false);
    p.taken_down = Some(true);
    let mut s = loaded(vec![p]);
    s.loaded_scope = Scope::Mine;
    s.scope = Scope::Mine;
    for k in [key(KeyCode::Char('d')), key(KeyCode::Char('D'))] {
        match s.handle_key(k) {
            ProgramsIntent::Warn(msg) => assert!(msg.contains("moderator"), "{msg}"),
            other => panic!("expected a warning, got {other:?}"),
        }
    }
}

#[test]
fn a_control_chord_does_not_type_itself_into_a_path_or_a_field() {
    let mut s = loaded(vec![program("p1", "hello")]);
    s.handle_key(key(KeyCode::Enter));
    s.apply_source("p1", Ok(source_at(1)));
    s.handle_key(key(KeyCode::Char('w')));
    let before = s.save_prompt.clone().expect("the prompt is open");
    s.handle_key(ctrl(KeyCode::Char('w')));
    s.handle_key(ctrl(KeyCode::Char('u')));
    assert_eq!(s.save_prompt.as_deref(), Some(before.as_str()));

    let mut s = loaded(Vec::new());
    s.handle_key(key(KeyCode::Char('P')));
    s.handle_key(ctrl(KeyCode::Char('w')));
    let ProgramsMode::Publish(form) = &s.mode else {
        panic!("the form");
    };
    assert!(form.name.is_empty());
}

#[test]
fn saving_hands_back_the_decoded_bytes_and_closes_the_prompt() {
    let mut s = loaded(vec![program("p1", "hello")]);
    s.handle_key(key(KeyCode::Enter));
    s.apply_source(
        "p1",
        Ok(ProgramSource {
            id: "p1".into(),
            name: "hello".into(),
            runtime: Runtime::Wasm,
            release: 1,
            encoding: "base64".into(),
            source: "AGFzbQEAAAA=".into(),
            ..Default::default()
        }),
    );
    s.handle_key(key(KeyCode::Char('w')));
    assert_eq!(s.save_prompt.as_deref(), Some("hello.wasm"));
    match s.handle_key(key(KeyCode::Enter)) {
        ProgramsIntent::SaveSource { path, bytes } => {
            assert_eq!(path, "hello.wasm");
            assert_eq!(
                bytes, b"\0asm\x01\0\0\0",
                "the decoded module, not the base64 text"
            );
        }
        other => panic!("expected a save, got {other:?}"),
    }
    assert!(s.save_prompt.is_none());
}

#[test]
fn an_undecodable_source_closes_the_prompt_rather_than_looping() {
    let mut s = loaded(vec![program("p1", "hello")]);
    s.handle_key(key(KeyCode::Enter));
    s.apply_source(
        "p1",
        Ok(ProgramSource {
            runtime: Runtime::Wasm,
            encoding: "base64".into(),
            source: "!!!!".into(),
            ..Default::default()
        }),
    );
    s.handle_key(key(KeyCode::Char('w')));
    assert!(matches!(
        s.handle_key(key(KeyCode::Enter)),
        ProgramsIntent::Warn(_)
    ));
    assert!(
        s.save_prompt.is_none(),
        "retrying can never succeed, so the prompt must not stay open"
    );
}

#[test]
fn a_publish_result_closes_the_form_only_when_it_succeeded() {
    let mut s = loaded(Vec::new());
    s.handle_key(key(KeyCode::Char('P')));
    let ProgramsMode::Publish(form) = &mut s.mode else {
        panic!("the form");
    };
    form.submitting = true;
    assert_eq!(
        s.apply_published(Err("name already taken".into())),
        None,
        "a failure has nothing to announce from here"
    );
    match &s.mode {
        ProgramsMode::Publish(form) => {
            assert!(!form.submitting);
            assert_eq!(form.error.as_deref(), Some("name already taken"));
        }
        other => panic!("expected the form, got {other:?}"),
    }

    let ProgramsMode::Publish(form) = &mut s.mode else {
        panic!("the form");
    };
    form.submitting = true;
    assert_eq!(
        s.apply_published(Ok("published hello v1".into())),
        Some("published hello v1".to_string())
    );
    assert!(matches!(s.mode, ProgramsMode::Gallery));
}

#[test]
fn esc_gets_out_of_a_submitting_form() {
    let mut s = loaded(Vec::new());
    s.handle_key(key(KeyCode::Char('P')));
    let ProgramsMode::Publish(form) = &mut s.mode else {
        panic!("the form");
    };
    form.submitting = true;
    assert!(s.handle_escape());
    assert!(matches!(s.mode, ProgramsMode::Gallery));
    assert!(!s.handle_escape(), "and the gallery hands Esc to the shell");
}

#[test]
fn an_empty_filtered_page_follows_its_cursor_instead_of_claiming_the_gallery_is_empty() {
    let mut s = ProgramsScreen::new();
    assert_eq!(
        s.apply_initial(Ok((Vec::new(), Some("g30".into())))),
        Some("g30".to_string())
    );
    assert_eq!(
        s.apply_more(Ok((Vec::new(), Some("g60".into())))),
        Some("g60".to_string())
    );
    // A page with rows on it stops the chase.
    assert_eq!(
        s.apply_more(Ok((vec![program("p1", "hello")], Some("g90".into())))),
        None
    );

    // And the budget is bounded rather than walking the whole registry.
    let mut s = ProgramsScreen::new();
    let mut chases: usize = 0;
    let mut next = s.apply_initial(Ok((Vec::new(), Some("c".into()))));
    while next.is_some() {
        chases += 1;
        next = s.apply_more(Ok((Vec::new(), Some("c".into()))));
    }
    assert_eq!(chases, usize::from(MAX_AUTO_PAGES));
}

#[test]
fn a_page_of_programs_loads_the_next_one_by_its_cursor() {
    let mut s = ProgramsScreen::new();
    s.apply_initial(Ok((vec![program("p1", "a")], Some("cursor-1".into()))));
    // `n` is the explicit next-page key on every list screen.
    match s.handle_key(key(KeyCode::Char('n'))) {
        ProgramsIntent::LoadMore { before, query } => {
            assert_eq!(before, "cursor-1");
            assert!(!query.mine);
        }
        other => panic!("expected a load-more, got {other:?}"),
    }
}

#[test]
fn a_program_row_says_what_changes_its_keys() {
    let theme = Theme::cyber();
    let mut p = program("p1", "hello");
    let rows = program_row(&p, &theme);
    assert_eq!(rows[0].text(), "hello by @trinity · term · v3");
    assert_eq!(rows[1].text(), "  does a thing");
    p.is_published = Some(false);
    p.description = "  ".into();
    let rows = program_row(&p, &theme);
    assert_eq!(rows[0].text(), "hello by @trinity · term · v3 · not in the gallery");
    assert_eq!(rows[1].text(), "  no description");
    p.taken_down = Some(true);
    assert_eq!(program_row(&p, &theme)[0].text(), "hello by @trinity · term · v3 · taken down");
}

#[test]
fn a_rendered_source_learns_how_far_it_scrolls() {
    let mut s = loaded(vec![program("p1", "hello")]);
    s.handle_key(key(KeyCode::Enter));
    s.apply_source("p1", Ok(source_at(2)));
    let f = s.render(40, 20, &Theme::cyber(), &Config::default());
    assert_eq!(f.title.text(), " cs-tui • hello by @trinity • v2 ");
    match f.pane {
        ProgramsPane::Source(p) => {
            assert_eq!(p.lines.len(), 50);
            assert_eq!(p.max_scroll, 30);
            assert_eq!(p.scroll, 0);
        }
        other => panic!("expected the source, got {other:?}"),
    }
    for _ in 0..5 {
        s.handle_key(key(KeyCode::PageDown));
    }
    match s.render(40, 20, &Theme::cyber(), &Config::default()).pane {
        ProgramsPane::Source(p) => assert_eq!(p.scroll, 30),
        other => panic!("expected the source, got {other:?}"),
    }
}

#[test]
fn long_lines_wrap_and_empty_ones_still_take_a_row() {
    assert_eq!(wrapped_rows("", 10), 1);
    assert_eq!(wrapped_rows("abcdefghijk\n\nxy", 5), 5);
    assert_eq!(wrapped_rows("abcde", 5), 1);
    assert_eq!(wrapped_rows("abc", 0), 3);
}

#[test]
fn a_binary_and_a_broken_source_are_told_apart() {
    let theme = Theme::cyber();
    let mut src = ProgramSource {
        runtime: Runtime::Wasm,
        encoding: "base64".into(),
        source: "AGFzbQEAAAA=".into(),
        ..Default::default()
    };
    let lines = undisplayable_source_lines(&src, &theme);
    assert_eq!(lines[0].text(), "a wasm binary — nothing to read here");
    assert_eq!(lines[1].text(), "8 bytes · w saves it to a file");
    src.runtime = Runtime::Term;
    src.source = "//79".into();
    assert_eq!(src.bytes(), Ok(vec![0xff, 0xfe, 0xfd]));
    assert_eq!(src.text(), None);
    assert_eq!(
        undisplayable_source_lines(&src, &theme)[0].text(),
        "this program's source is not readable text"
    );
    src.source = "aGk=".into();
    assert_eq!(src.text().as_deref(), Some("hi"));
    src.source = "aGl=".into();
    assert_eq!(src.bytes(), Err(SourceError::NotBase64));
    assert_eq!(
        undisplayable_source_lines(&src, &theme)[0].text(),
        "this program's source is not valid base64"
    );
}

#[test]
fn each_complaint_of_the_form_has_its_input() {
    let mut form = PublishForm::default();
    assert_eq!(form.validate(), Err("a program needs a name".to_string()));
    form.name = "x".repeat(33);
    assert_eq!(form.validate(), Err("name must be ≤32 characters".to_string()));
    form.name = "bad name".into();
    assert_eq!(
        form.validate(),
        Err("name may hold only letters, digits, '.', '_' and '-'".to_string())
    );
    form.name = "ok-1._".into();
    assert_eq!(form.validate(), Err("a program needs a description".to_string()));
    form.description = "d".repeat(257);
    assert_eq!(form.validate(), Err("description must be ≤256 characters".to_string()));
    form.description = "d".into();
    assert_eq!(form.validate(), Err("point the form at the file to publish".to_string()));
    form.source_path = "a.js".into();
    assert_eq!(form.validate(), Ok(()));
}

#[test]
fn pasting_goes_to_the_prompt_or_the_focused_field() {
    let mut s = loaded(vec![program("p1", "hello")]);
    s.paste_text("ignored");
    s.handle_key(key(KeyCode::Char('P')));
    s.handle_key(key(KeyCode::Tab));
    s.paste_text("two\nlines");
    match &s.mode {
        ProgramsMode::Publish(form) => assert_eq!(form.description, "two lines"),
        other => panic!("expected the form, got {other:?}"),
    }
    assert!(s.handle_escape());
    s.handle_key(key(KeyCode::Enter));
    s.apply_source("p1", Ok(source_at(1)));
    s.handle_key(key(KeyCode::Char('w')));
    s.paste_text(".bak");
    assert_eq!(s.save_prompt.as_deref(), Some("hello.js.bak"));
    s.handle_key(key(KeyCode::Backspace));
    assert_eq!(s.save_prompt.as_deref(), Some("hello.js.ba"));
    assert!(s.handle_escape());
    assert!(s.save_prompt.is_none());
    assert!(matches!(s.mode, ProgramsMode::Source { .. }));
}

#[test]
fn an_empty_gallery_is_labelled_by_its_scope() {
    let mut s = loaded(vec![]);
    let f = s.render(80, 10, &Theme::cyber(), &Config::default());
    assert_eq!(f.title.text(), " cs-tui • programs • gallery • runtime: all ");
    match f.pane {
        ProgramsPane::Gallery(ListBody::Message(line)) => {
            assert_eq!(line.text(), "no programs published yet")
        }
        other => panic!("expected a message, got {other:?}"),
    }
    assert_eq!(
        gallery_status(&s),
        "0 programs · end · enter read · m scope · t runtime · P publish · d recall · D delete · \
         r refresh · esc back"
    );
    assert_eq!(s.handle_key(ctrl(KeyCode::Char('c'))), ProgramsIntent::Quit);
}

#[test]
fn the_confirmation_and_the_form_are_drawn() {
    let theme = Theme::cyber();
    let cfg = Config::default();
    let mut s = loaded(vec![program("p1", "hello")]);
    s.loaded_scope = Scope::Mine;
    s.handle_key(key(KeyCode::Char('D')));
    match s.render(80, 10, &theme, &cfg).pane {
        ProgramsPane::Confirm(lines) => {
            assert_eq!(lines[0].text(), "Delete the record for hello?")
        }
        other => panic!("expected the question, got {other:?}"),
    }
    s.handle_key(key(KeyCode::Char('n')));
    s.handle_key(key(KeyCode::Char('P')));
    match s.render(80, 10, &theme, &cfg).pane {
        ProgramsPane::Publish(lines) => {
            assert_eq!(lines.len(), 10);
            assert_eq!(lines[0].text(), "name (letters, digits, . _ - · max 32)");
            assert_eq!(lines[5].text(), "web");
        }
        other => panic!("expected the form, got {other:?}"),
    }
}

#[test]
fn wide_glyphs_are_only_ever_counted_high() {
    assert!(wrapped_rows("日本語", 4) >= 2);
    // Two columns never fit three of a row: each glyph gets one of its own.
    assert!(wrapped_rows("日本語", 3) >= 3);
    assert!(wrapped_rows("日本語\nabc", 3) >= 4);
    assert_eq!(wrapped_rows("日", 10), 1);
    assert_eq!(wrapped_rows("ééé", 3), 1);
}
