use chatlog::config::{Action, FileHandleManager};
use chatlog::message::{Command, Message};
use chatlog::reload::{channels_not_in, ReloadStep, Session};

fn strings(list: &[&str]) -> Vec<String> {
    list.iter().map(|s| s.to_string()).collect()
}

fn session(list: &[&str]) -> Session {
    Session { irc_channels: strings(list), file_handles: FileHandleManager::new(&strings(list)) }
}

fn reload(session: &mut Session, list: &[&str]) -> Vec<ReloadStep> {
    session.reload(strings(list), FileHandleManager::new(&strings(list)))
}

fn confirm() -> ReloadStep {
    ReloadStep::Print("Reloaded config.".to_string())
}

#[test]
fn difference_keeps_order_and_repetitions() {
    assert_eq!(
        channels_not_in(&strings(&["#c", "#a", "#b", "#c"]), &strings(&["#a", "#d"])),
        strings(&["#c", "#b", "#c"])
    );
    assert_eq!(channels_not_in(&strings(&["#a"]), &strings(&["#a"])), Vec::<String>::new());
    assert_eq!(channels_not_in(&Vec::new(), &strings(&["#a"])), Vec::<String>::new());
    assert_eq!(channels_not_in(&strings(&["#a", "#b"]), &Vec::new()), strings(&["#a", "#b"]));
}

#[test]
fn reload_leaves_removed_and_joins_added_channels() {
    let mut live = session(&["#a", "#b"]);
    let steps = reload(&mut live, &["#b", "#c"]);
    assert_eq!(
        steps,
        vec![
            ReloadStep::Part("#a".to_string()),
            ReloadStep::ReplaceHandles,
            ReloadStep::Join("#c".to_string()),
            confirm(),
        ]
    );
    assert_eq!(live.irc_channels, strings(&["#b", "#c"]));
    assert_eq!(live.file_handles, FileHandleManager::new(&strings(&["#b", "#c"])));
    assert_eq!(steps.iter().filter(|s| matches!(s, ReloadStep::Part(_))).count(), 1);
    assert_eq!(steps.iter().filter(|s| matches!(s, ReloadStep::Join(_))).count(), 1);
}

#[test]
fn writes_after_a_reload_go_through_the_new_table() {
    let mut live = session(&["#a", "#b"]);
    reload(&mut live, &["#b", "#c"]);
    assert_eq!(live.file_handles.handle_of("#a"), None);
    assert_eq!(live.file_handles.handle_of("#b"), Some(0));
    assert_eq!(live.file_handles.handle_of("#c"), Some(1));
    let gone = live.file_handles.write_to_log_at(&"#a".to_string(), "X".to_string(), "T");
    assert_eq!(
        gone,
        Action::Warn { text: "No file opened for #a, would have logged:\n\"X\"".to_string() }
    );
    let kept = live.file_handles.write_to_log_at(&"#b".to_string(), "X".to_string(), "T");
    assert_eq!(kept, Action::Append { handle: 0, text: "X // T\n".to_string() });
    let new = live.file_handles.write_to_log_at(&"#c".to_string(), "X".to_string(), "T");
    assert_eq!(new, Action::Append { handle: 1, text: "X // T\n".to_string() });
}

#[test]
fn events_after_a_reload_go_through_the_new_table() {
    let mut live = session(&["#a"]);
    reload(&mut live, &["#c", "#b"]);
    let event = Ok(Message {
        tags: None,
        prefix: None,
        command: Command::Raw("CLEARCHAT".to_string(), strings(&["#b"])),
    });
    match live.handle_irc_event(event) {
        Ok(Action::Append { handle, text }) => {
            assert_eq!(handle, 1);
            assert!(text.starts_with("CLEARCHAT(tags:{}) // "));
        }
        other => panic!("unexpected outcome {:?}", other),
    }
    let event = Ok(Message {
        tags: None,
        prefix: None,
        command: Command::Raw("CLEARCHAT".to_string(), strings(&["#a"])),
    });
    assert_eq!(
        live.handle_irc_event(event),
        Ok(Action::Warn {
            text: "No file opened for #a, would have logged:\n\"CLEARCHAT(tags:{})\"".to_string(),
        })
    );
}

#[test]
fn reload_with_several_changes_joins_names_with_commas() {
    let mut live = session(&["#a", "#b", "#c", "#d"]);
    let steps = reload(&mut live, &["#e", "#b", "#f", "#g"]);
    assert_eq!(
        steps,
        vec![
            ReloadStep::Part("#a,#c,#d".to_string()),
            ReloadStep::ReplaceHandles,
            ReloadStep::Join("#e,#f,#g".to_string()),
            confirm(),
        ]
    );
    assert_eq!(live.irc_channels, strings(&["#e", "#b", "#f", "#g"]));
}

#[test]
fn reload_without_changes_leaves_and_joins_nothing() {
    let mut live = session(&["#a", "#b"]);
    let steps = reload(&mut live, &["#b", "#a"]);
    assert_eq!(steps, vec![ReloadStep::ReplaceHandles, confirm()]);
    assert_eq!(live.irc_channels, strings(&["#b", "#a"]));
    assert_eq!(live.file_handles.handle_of("#b"), Some(0));
}

#[test]
fn reload_that_only_adds_channels_leaves_nothing() {
    let mut live = session(&["#a"]);
    let steps = reload(&mut live, &["#a", "#b"]);
    assert_eq!(
        steps,
        vec![ReloadStep::ReplaceHandles, ReloadStep::Join("#b".to_string()), confirm()]
    );
}

#[test]
fn reload_that_only_removes_channels_joins_nothing() {
    let mut live = session(&["#a", "#b"]);
    let steps = reload(&mut live, &["#b"]);
    assert_eq!(
        steps,
        vec![ReloadStep::Part("#a".to_string()), ReloadStep::ReplaceHandles, confirm()]
    );
}

#[test]
fn reload_from_and_to_no_channels() {
    let mut live = session(&[]);
    let steps = reload(&mut live, &["#a"]);
    assert_eq!(
        steps,
        vec![ReloadStep::ReplaceHandles, ReloadStep::Join("#a".to_string()), confirm()]
    );
    let steps = reload(&mut live, &[]);
    assert_eq!(
        steps,
        vec![ReloadStep::Part("#a".to_string()), ReloadStep::ReplaceHandles, confirm()]
    );
    assert_eq!(live.irc_channels, Vec::<String>::new());
    assert_eq!(live.file_handles.len(), 0);
}
