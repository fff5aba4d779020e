use emilydotgg_random::generator::{Generator, GeneratorType};
use emilydotgg_random::plugin::{
    controller_count, render, Action, HostRequest, NameOf, Plugin, CONTROLLER_COUNT,
};
use emilydotgg_random::shared::PluginShared;
use emilydotgg_random::time::Timestamp;
use emilydotgg_random::ui::{App, HostMessage, Message, UIMessage, UiAction};

#[test]
fn debug_builds_use_fewer_controllers() {
    assert_eq!(controller_count(true), 10);
    assert_eq!(controller_count(false), 100);
    assert_eq!(CONTROLLER_COUNT, 100);
}

#[test]
fn plugin_describes_itself() {
    let info = Plugin::new().info();
    assert_eq!(info.long_name, "emilydotgg-random");
    assert_eq!(info.short_name, "Random");
    assert_eq!(info.num_params, 3);
    assert_eq!(info.num_out_ctrls, 100);
    assert_eq!(info.num_out_voices, 100);
    assert!(info.want_new_tick);
    assert!(info.get_note_input);
}

#[test]
fn controllers_have_names() {
    let plugin = Plugin::new();
    assert_eq!(plugin.name_of(NameOf::OutCtrl(0)), "Control 0");
    assert_eq!(plugin.name_of(NameOf::OutCtrl(99)), "Control 99");
    assert_eq!(
        plugin.name_of(NameOf::OutCtrl(usize::MAX)),
        format!("Control {}", usize::MAX)
    );
    assert_eq!(plugin.name_of(NameOf::Other), "What?");
    assert_eq!(plugin.hello_hint(), "^c Hello");
    assert_eq!(
        plugin.selection_line("Time(1, 2)"),
        "current selection or full song range is: Time(1, 2)"
    );
}

#[test]
fn enabling_starts_the_editor() {
    let mut plugin = Plugin::new();
    let actions = plugin.on_message(HostRequest::SetEnabled(true));
    assert!(matches!(
        actions[..],
        [Action::LogSelection, Action::SayHello, Action::StartUi]
    ));
    assert!(!plugin.holds_ui_receiver);
    assert!(plugin.ui_runs);
    let actions = plugin.on_message(HostRequest::SetEnabled(false));
    assert!(matches!(actions[..], [Action::LogSelection, Action::SayHello]));
    assert!(plugin.ui_runs);
}

#[test]
fn showing_the_editor_is_passed_on() {
    let mut plugin = Plugin::new();
    let mut shared = PluginShared::new(1);
    let mut app = App::new(1);
    let now = Timestamp { secs: 0, nanos: 0 };
    for handle in [Some(5), None] {
        let actions = plugin.on_message(HostRequest::ShowEditor(handle));
        assert_eq!(actions.len(), 1);
        for action in actions {
            match action {
                Action::SendUi(message) => {
                    assert!(matches!(message, UIMessage::ShowEditor(sent) if sent == handle));
                    app.update(Message::HostMessage(message), now);
                }
                other => panic!("{other:?}"),
            }
        }
        assert_eq!(shared.editor_visible, handle.is_none());
        plugin.editor_told(&mut shared, handle);
        assert_eq!(shared.editor_visible, handle.is_some());
        assert_eq!(shared.editor_visible, app.should_draw);
    }
    assert!(plugin.on_message(HostRequest::Other).is_empty());
}

#[test]
fn editor_messages_reach_the_generators() {
    let plugin = Plugin::new();
    let mut shared = PluginShared::new(2);
    let mut app = App::new(2);
    let now = Timestamp { secs: 0, nanos: 0 };
    for action in app.update(Message::ChangeGenerators("Random".to_string()), now) {
        match action {
            UiAction::Send(message) => match plugin.on_ui_message(message) {
                Action::LogChange(kind) => {
                    assert_eq!(kind, GeneratorType::Random);
                    assert_eq!(shared.generators, PluginShared::new(2).generators);
                    plugin.change_logged(&mut shared, kind);
                }
                other => panic!("{other:?}"),
            },
            other => panic!("{other:?}"),
        }
    }
    assert_eq!(shared.generators, vec![Generator::Random; 2]);
}

#[test]
fn editor_window_is_passed_to_the_host() {
    let mut plugin = Plugin::new();
    assert!(!plugin.has_proxy);
    plugin.proxy();
    assert!(plugin.has_proxy);
    let action = plugin.on_ui_message(HostMessage::SetEditorHandle(Some(12)));
    assert!(matches!(action, Action::SetEditorHandle(12)));
}

#[test]
fn shutting_down_ends_a_running_editor() {
    let mut plugin = Plugin::new();
    let actions = plugin.shut_down();
    assert!(matches!(actions[..], [Action::SendUi(UIMessage::Die)]));

    let mut plugin = Plugin::new();
    plugin.on_message(HostRequest::SetEnabled(true));
    let actions = plugin.shut_down();
    assert!(matches!(
        actions[..],
        [Action::SendUi(UIMessage::Die), Action::JoinUi]
    ));
    assert!(!plugin.ui_runs);
}

#[test]
fn sound_passes_through() {
    let input = [[0.1f32, 0.2], [0.3, 0.4], [0.5, 0.6]];
    let mut output = [[0.0f32, 0.0]; 3];
    render(&input, &mut output);
    assert_eq!(output, input);
}

#[test]
fn sound_stops_where_a_buffer_ends() {
    let mut output = [[9.0f32, 9.0]; 3];
    render(&[[0.1f32, 0.2]], &mut output);
    assert_eq!(output, [[0.1, 0.2], [9.0, 9.0], [9.0, 9.0]]);
    let mut output = [[9.0f32, 9.0]; 1];
    render(&[[0.1f32, 0.2], [0.3, 0.4]], &mut output);
    assert_eq!(output, [[0.1, 0.2]]);
}
