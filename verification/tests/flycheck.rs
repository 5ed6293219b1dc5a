use sourcepawn_lsp::completion_data::{Attribute, Event as GameEvent};
use sourcepawn_lsp::documentation::{comment_to_doc, Documentation};
use sourcepawn_lsp::flycheck::{
    debounce_step,
    join_outcome, process_line, Action, Event, FlycheckActor, FlycheckConfig, Message, OutputReader, Progress, StateChange,
};
use sourcepawn_lsp::spcomp::{SpCompDiagnostic, SpCompSeverity};

fn actor() -> FlycheckActor {
    FlycheckActor::new(7, FlycheckConfig::new(String::from("spcomp"), vec![], vec![]), String::from("/work"))
}

#[test]
fn try_from_line_reads_an_error() {
    let d = SpCompDiagnostic::try_from_line("/home/user/plugin.sp(12) : error 017: undefined symbol \"foo\"").unwrap();
    assert_eq!(d.path(), "/home/user/plugin.sp");
    assert_eq!(d.line_index(), 11);
    assert_eq!(*d.severity(), SpCompSeverity::Error);
    assert_eq!(d.code(), "017");
    assert_eq!(d.message(), "undefined symbol \"foo\"");
}

#[test]
fn try_from_line_reads_a_warning_and_a_fatal_error() {
    let w = SpCompDiagnostic::try_from_line("/a/b.inc(3) : warning 204: symbol is assigned a value that is never used").unwrap();
    assert_eq!(*w.severity(), SpCompSeverity::Warning);
    assert_eq!(w.line_index(), 2);
    assert_eq!(w.code(), "204");
    let f = SpCompDiagnostic::try_from_line("/a/b.sp(1) : fatal error 183: cannot read from file").unwrap();
    assert_eq!(*f.severity(), SpCompSeverity::FatalError);
    assert_eq!(f.line_index(), 0);
}

#[test]
fn try_from_line_rejects_other_lines() {
    assert!(SpCompDiagnostic::try_from_line("Code size: 3456 bytes").is_none());
    assert!(SpCompDiagnostic::try_from_line("relative/path.sp(4) : error 001: expected token").is_none());
    assert!(SpCompDiagnostic::try_from_line("/a/b.sp(99999999999) : error 001: expected token").is_none());
}

#[test]
fn cancel_kills_a_running_check() {
    let mut a = actor();
    let actions = a.step(Event::Spawned(Ok(())));
    assert!(a.running);
    assert!(matches!(actions[..], [Action::Send(Message::Progress { id: 7, progress: Progress::DidStart })]));
    let actions = a.step(Event::RequestStateChange(StateChange::Cancel));
    assert!(!a.running);
    assert_eq!(actions.len(), 2);
    assert!(matches!(actions[0], Action::KillProcess));
    assert!(matches!(actions[1], Action::Send(Message::Progress { id: 7, progress: Progress::DidCancel })));
}

#[test]
fn cancel_of_an_idle_check_does_nothing() {
    let mut a = actor();
    let actions = a.step(Event::RequestStateChange(StateChange::Cancel));
    assert!(actions.is_empty());
    assert!(!a.running);
}

#[test]
fn restart_debounces_then_spawns() {
    let mut a = actor();
    let actions = a.step(Event::RequestStateChange(StateChange::Restart));
    assert!(matches!(actions[..], [Action::Debounce]));
    let actions = a.step(Event::Debounced { cancelled: false });
    assert!(matches!(actions[..], [Action::Spawn]));
    let actions = a.step(Event::Debounced { cancelled: true });
    assert!(actions.is_empty());
    assert!(!a.running);
}

#[test]
fn spawn_failure_is_reported() {
    let mut a = actor();
    let actions = a.step(Event::Spawned(Err((String::from("spcomp x.sp"), String::from("not found")))));
    assert!(!a.running);
    match &actions[..] {
        [Action::Send(Message::Progress { id: 7, progress: Progress::DidFailToRestart(msg) })] => {
            assert_eq!(msg, "Failed to run the following command: spcomp x.sp error=not found");
        },
        _ => panic!("expected a failure report"),
    }
}

#[test]
fn finished_check_is_joined_and_reported() {
    let mut a = actor();
    a.step(Event::Spawned(Ok(())));
    let d = SpCompDiagnostic::try_from_line("/w/a.sp(2) : error 001: expected token").unwrap();
    let actions = a.step(Event::SpCompEvent(Some(d)));
    match &actions[..] {
        [Action::Send(Message::AddDiagnostic { id: 7, workspace_root, diagnostic })] => {
            assert_eq!(workspace_root, "/work");
            assert_eq!(diagnostic.line_index(), 1);
        },
        _ => panic!("expected a diagnostic"),
    }
    let actions = a.step(Event::SpCompEvent(None));
    assert!(matches!(actions[..], [Action::Join]));
    assert!(!a.running);
    let actions = a.step(Event::Joined(Err(String::from("exit 1"))));
    match &actions[..] {
        [Action::Send(Message::Progress { id: 7, progress: Progress::DidFinish(Err(e)) })] => assert_eq!(e, "exit 1"),
        _ => panic!("expected the end of the check"),
    }
    let actions = a.step(Event::InboxClosed);
    assert!(matches!(actions[..], [Action::Stop]));
}

#[test]
fn output_lines_become_diagnostics() {
    let mut error = String::new();
    assert!(process_line("/w/a.sp(5) : warning 203: symbol is never used: \"x\"", &mut error).is_some());
    assert!(process_line("some other text", &mut error).is_none());
    let mut reader = OutputReader::new();
    assert!(reader.on_stdout_line("/w/a.sp(5) : warning 203: symbol is never used").is_some());
    assert!(reader.on_stderr_line("not a diagnostic").is_none());
}

#[test]
fn join_outcome_reports_failures() {
    assert_eq!(join_outcome(true, true, "0", ""), Ok(()));
    assert!(join_outcome(false, false, "1", "oops").is_err());
}

#[test]
fn documentation_round_trip() {
    let doc = Documentation::new(String::from("Some text."));
    assert_eq!(doc.as_str(), "Some text.");
    assert_eq!(doc.into_string(), "Some text.");
    let doc: Documentation = String::from("x").into();
    let back: String = doc.into();
    assert_eq!(back, "x");
}

#[test]
fn documentation_to_markdown_escapes_and_quotes() {
    let doc = Documentation::new(String::from("  Returns the <value> of foo(a)  "));
    assert_eq!(doc.to_markdown(), "Returns the \\<value\\> of `foo(a)`");
    let doc = Documentation::new(String::from("DEPRECATED"));
    assert_eq!(doc.to_markdown(), "**DEPRECATED**");
}

#[test]
fn documentation_param_description() {
    let doc = Documentation::new(String::from("Does things.\n@param client   The client index.\n@return Nothing."));
    assert_eq!(doc.param_description("client").unwrap().as_str(), "The client index.");
    assert!(doc.param_description("other").is_none());
}

#[test]
fn documentation_from_event() {
    let e = GameEvent::new(
        String::from("player_death"),
        Some(String::from("When a player dies")),
        vec![
            Attribute::new(String::from("userid"), String::from("short"), Some(String::from("user ID who died"))),
            Attribute::new(String::from("weapon"), String::from("string"), None),
        ],
    );
    assert_eq!(
        Documentation::from_event(&e).as_str(),
        "When a player dies\n\n---\n\n`userid` (__short__) — user ID who died\n\n`weapon` (__string__)"
    );
}

#[test]
fn comment_to_doc_strips_markers() {
    assert_eq!(comment_to_doc("// A comment"), "A comment");
    assert_eq!(comment_to_doc("/** Does it.\n * Second line.\n */"), "Does it.\nSecond line.\n ");
}

#[test]
fn documentation_from_round_trip() {
    let text = String::from("Prints a message.");
    assert_eq!(Documentation::new(text.clone()).as_str(), text.as_str());
    assert_eq!(String::from(Documentation::new(text.clone())), text);
    assert_eq!(Documentation::new(text.clone()), Documentation::from(text.clone()));
}

#[test]
fn debounce_window_outcomes() {
    assert_eq!(debounce_step(Some(StateChange::Cancel)), Some(true));
    assert_eq!(debounce_step(Some(StateChange::Restart)), None);
    assert_eq!(debounce_step(None), Some(false));
}

#[test]
fn param_description_escapes_the_parameter_name() {
    let doc = Documentation::new(String::from("@param a.b the thing @return nothing"));
    assert_eq!(doc.param_description("a.b").map(String::from), Some(String::from("the thing")));
    let other = Documentation::new(String::from("@param axb the thing"));
    assert!(other.param_description("a.b").is_none());
}

#[test]
fn a_run_reports_each_diagnostic_and_one_cancel() {
    let mut a = actor();
    let line = "/a/b.sp(3) : error 017: undefined symbol \"x\"";
    let events = vec![
        Event::RequestStateChange(StateChange::Restart),
        Event::Debounced { cancelled: false },
        Event::Spawned(Ok(())),
        Event::SpCompEvent(Some(SpCompDiagnostic::try_from_line(line).unwrap())),
        Event::SpCompEvent(Some(SpCompDiagnostic::try_from_line(line).unwrap())),
        Event::RequestStateChange(StateChange::Cancel),
        Event::RequestStateChange(StateChange::Cancel),
        Event::InboxClosed,
    ];
    let mut diagnostics = 0;
    let mut cancels = 0;
    for event in events {
        for action in a.step(event) {
            match action {
                Action::Send(Message::AddDiagnostic { id, diagnostic, .. }) => {
                    assert_eq!(id, 7);
                    assert_eq!(diagnostic.line_index(), 2);
                    diagnostics += 1;
                }
                Action::Send(Message::Progress { id, progress: Progress::DidCancel }) => {
                    assert_eq!(id, 7);
                    cancels += 1;
                }
                _ => {}
            }
        }
    }
    assert_eq!(diagnostics, 2);
    assert_eq!(cancels, 1);
}
