use azbridge::tui::app::{BrowseEntry, ConfigKind, Screen};
use azbridge::tui::forms::{ConnectionForm, RemoteForwardForm, TextField};
use azbridge::tui::runner::RunStatus;

#[test]
fn text_field_typing_and_editing() {
    let mut f = TextField::new("Name");
    assert_eq!(f.label, "Name");
    for c in "helo".chars() {
        f.input_char(c);
    }
    assert_eq!(f.value, "helo");
    assert_eq!(f.cursor, 4);
    f.cursor_left();
    f.input_char('l');
    assert_eq!(f.value, "hello");
    assert_eq!(f.cursor, 4);
    f.backspace();
    assert_eq!(f.value, "helo");
    assert_eq!(f.cursor, 3);
    f.cursor_right();
    f.cursor_right();
    assert_eq!(f.cursor, 4);
}

#[test]
fn text_field_edges() {
    let mut f = TextField::new("X");
    f.backspace();
    assert_eq!(f.value, "");
    assert_eq!(f.cursor, 0);
    f.cursor_left();
    assert_eq!(f.cursor, 0);
    f.cursor_right();
    assert_eq!(f.cursor, 0);
}

#[test]
fn text_field_multibyte_input_then_backspace() {
    let mut f = TextField::new("X");
    f.input_char('a');
    f.input_char('é');
    assert_eq!(f.value, "aé");
    assert_eq!(f.cursor, 2);
    f.backspace();
    assert_eq!(f.value, "a");
    assert_eq!(f.cursor, 1);
}

#[test]
fn connection_form_navigation_wraps() {
    let mut form = ConnectionForm::new();
    assert_eq!(form.active_field, 0);
    form.prev_field();
    assert_eq!(form.active_field, 4);
    form.next_field();
    assert_eq!(form.active_field, 0);
    for _ in 0..5 {
        form.next_field();
    }
    assert_eq!(form.active_field, 0);
    let labels: Vec<&str> = form.fields().iter().map(|f| f.label).collect();
    assert_eq!(
        labels,
        vec!["Endpoint URI", "Connection String", "SAS Key Name", "SAS Key", "Log Level"]
    );
}

#[test]
fn connection_form_edits_active_field_only() {
    let mut form = ConnectionForm::new();
    form.next_field();
    form.input_char('x');
    form.input_char('y');
    form.backspace();
    form.cursor_left();
    assert_eq!(form.connection_string.value, "x");
    assert_eq!(form.connection_string.cursor, 0);
    form.cursor_right();
    assert_eq!(form.connection_string.cursor, 1);
    assert_eq!(form.endpoint.value, "");
    assert_eq!(form.log_level.value, "");
    let fields = form.fields_mut();
    assert_eq!(fields[1].value, "x");
}

#[test]
fn remote_forward_form_summary() {
    let mut form = RemoteForwardForm::new();
    assert_eq!(form.summary(), "<unnamed> → localhost:?");
    for c in "relay".chars() {
        form.input_char(c);
    }
    form.next_field();
    form.next_field();
    for c in "8080".chars() {
        form.input_char(c);
    }
    assert_eq!(form.summary(), "relay → localhost:8080");
    form.http = true;
    form.prev_field();
    for c in "web".chars() {
        form.input_char(c);
    }
    assert_eq!(form.summary(), "relay → web:8080 (HTTP)");
    assert_eq!(form.active_field, 1);
    form.prev_field();
    assert_eq!(form.active_field, 0);
    form.prev_field();
    assert_eq!(form.active_field, 3);
    assert_eq!(form.fields().len(), 4);
    assert_eq!(form.fields_mut()[2].value, "8080");
}

#[test]
fn screens_and_kinds() {
    assert_eq!(Screen::MainMenu.clone(), Screen::MainMenu);
    assert_ne!(Screen::Browse, Screen::BrowseDetail);
    assert_ne!(ConfigKind::Client, ConfigKind::Server);
    let entry = BrowseEntry::Directory { name: "d".into(), path: "/tmp/d".into() };
    assert!(matches!(entry.clone(), BrowseEntry::Directory { .. }));
    assert!(matches!(BrowseEntry::ParentDir, BrowseEntry::ParentDir));
}

#[test]
fn run_status_compares() {
    assert_eq!(RunStatus::Idle, RunStatus::Idle);
    assert_ne!(RunStatus::Running, RunStatus::Stopped);
    assert_eq!(RunStatus::Error("x".into()), RunStatus::Error("x".into()));
    assert_ne!(RunStatus::Error("x".into()), RunStatus::Error("y".into()));
}
