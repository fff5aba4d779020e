use emilydotgg_random::counter::{App, HostMessage, Message, UIMessage, UiAction};

#[test]
fn counter_starts_at_zero() {
    let app = App::new();
    assert_eq!(app, App { value: 0, hwnd: None });
    assert_eq!(app.title(), "test Counter - Iced");
}

#[test]
fn buttons_count_up_and_down() {
    let mut app = App::new();
    assert!(app.update(Message::IncrementPressed).is_empty());
    assert!(app.update(Message::IncrementPressed).is_empty());
    assert_eq!(app.value, 2);
    assert!(app.update(Message::DecrementPressed).is_empty());
    assert_eq!(app.value, 1);
    assert!(app.update(Message::Nothing).is_empty());
    assert_eq!(app.value, 1);
    assert!(app.update(Message::DecrementPressed).is_empty());
    assert!(app.update(Message::DecrementPressed).is_empty());
    assert_eq!(
        app.view(),
        ("Increment".to_string(), "-1".to_string(), "Decrement".to_string())
    );
}

#[test]
fn counter_moves_into_the_host_window() {
    let mut app = App::new();
    app.hwnd(11);
    assert_eq!(
        app.update(Message::HostMessage(UIMessage::ShowEditor(Some(22)))),
        vec![
            UiAction::SetParent { window: 11, parent: 22 },
            UiAction::Show { window: 11 },
            UiAction::Send(HostMessage::SetEditorHandle(Some(11))),
        ]
    );
    let mut app = App::new();
    assert_eq!(
        app.update(Message::HostMessage(UIMessage::ShowEditor(None))),
        vec![
            UiAction::SetParent { window: 0, parent: 0 },
            UiAction::Show { window: 0 },
            UiAction::Send(HostMessage::SetEditorHandle(None)),
        ]
    );
}
