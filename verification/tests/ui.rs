use emilydotgg_random::generator::GeneratorType;
use emilydotgg_random::level::Level;
use emilydotgg_random::time::{Timestamp, FIRST_SECOND};
use emilydotgg_random::ui::chart::{UpdateState, WaveformChart};
use emilydotgg_random::ui::{App, HostMessage, Message, UIMessage, UiAction, CHART_SECONDS};

fn level(value: f32) -> Level {
    Level { bits: value.to_bits() }
}

fn at(secs: i64) -> Timestamp {
    Timestamp { secs, nanos: 0 }
}

fn points(chart: &WaveformChart) -> Vec<(i64, f32)> {
    chart
        .values
        .iter()
        .map(|(time, level)| (time.secs, f32::from_bits(level.bits)))
        .collect()
}

#[test]
fn new_editor() {
    let app = App::new(3);
    assert_eq!(app.hwnd, None);
    assert_eq!(app.charts.len(), 3);
    assert!(app.charts.iter().all(|chart| chart.values.is_empty() && chart.outdated));
    assert!(!app.should_exit());
    assert!(!app.should_draw);
    assert_eq!(app.generator_type, "Deranged put something here please");
    assert_eq!(app.title(), "test Counter - Iced");
    assert!(app.view().is_none());
}

#[test]
fn showing_moves_the_editor_into_the_host_window() {
    let mut app = App::new(0);
    app.hwnd(7);
    assert_eq!(
        app.update(Message::HostMessage(UIMessage::ShowEditor(Some(8))), at(100)),
        vec![
            UiAction::SetParent { window: 7, parent: 8 },
            UiAction::Show { window: 7 },
            UiAction::Send(HostMessage::SetEditorHandle(Some(7))),
        ]
    );
    assert!(app.should_draw);
    let view = app.view().unwrap();
    assert_eq!(view.options, vec!["Random", "RandomInter"]);
    assert_eq!(view.selected.as_deref(), Some("Deranged put something here please"));
}

#[test]
fn hiding_takes_the_editor_out_of_the_host_window() {
    let mut app = App::new(0);
    app.hwnd(7);
    app.update(Message::HostMessage(UIMessage::ShowEditor(Some(8))), at(100));
    assert_eq!(
        app.update(Message::HostMessage(UIMessage::ShowEditor(None)), at(100)),
        vec![
            UiAction::Hide { window: 7 },
            UiAction::SetParent { window: 7, parent: 0 },
            UiAction::Send(HostMessage::SetEditorHandle(Some(7))),
        ]
    );
    assert!(!app.should_draw);
    assert!(app.view().is_none());
}

#[test]
fn editor_without_window_has_number_zero() {
    let mut app = App::new(0);
    assert_eq!(
        app.update(Message::HostMessage(UIMessage::ShowEditor(Some(8))), at(100)),
        vec![
            UiAction::SetParent { window: 0, parent: 8 },
            UiAction::Show { window: 0 },
            UiAction::Send(HostMessage::SetEditorHandle(None)),
        ]
    );
}

#[test]
fn updates_go_to_their_charts() {
    let mut app = App::new(3);
    for chart in app.charts.iter_mut() {
        assert!(chart.take_outdated());
        assert!(!chart.take_outdated());
    }
    let updates = vec![(0, level(0.5)), (2, level(0.25))];
    let message = Message::HostMessage(UIMessage::UpdateControllers((at(99), updates)));
    assert!(app.accepts(&message, at(100)));
    assert!(app.update(message, at(100)).is_empty());
    assert_eq!(points(&app.charts[0]), vec![(99, 0.5)]);
    assert_eq!(points(&app.charts[1]), vec![]);
    assert_eq!(points(&app.charts[2]), vec![(99, 0.25)]);
    assert!(app.charts[0].outdated);
    assert!(!app.charts[1].outdated);
    assert!(app.charts[2].outdated);
}

#[test]
fn charts_forget_what_is_older_than_five_seconds() {
    assert_eq!(CHART_SECONDS, 5);
    let mut app = App::new(1);
    for secs in 90..=100 {
        let updates = vec![(0, level(secs as f32))];
        app.update(
            Message::HostMessage(UIMessage::UpdateControllers((at(secs), updates))),
            at(secs),
        );
    }
    assert_eq!(
        points(&app.charts[0]),
        vec![(95, 95.0), (96, 96.0), (97, 97.0), (98, 98.0), (99, 99.0), (100, 100.0)]
    );
}

#[test]
fn dying_ends_the_editor() {
    let mut app = App::new(1);
    assert!(app.update(Message::HostMessage(UIMessage::Die), at(0)).is_empty());
    assert!(app.should_exit());
    app.update(Message::Nothing, at(0));
    assert!(app.should_exit());
}

#[test]
fn picked_kinds_are_sent_to_the_plugin() {
    let mut app = App::new(1);
    for (name, kind) in [
        ("Random", GeneratorType::Random),
        ("RandomInter", GeneratorType::RandomInter),
    ] {
        let message = Message::ChangeGenerators(name.to_string());
        assert!(app.accepts(&message, at(0)));
        assert_eq!(
            app.update(message, at(0)),
            vec![UiAction::Send(HostMessage::ChangeGenerators(kind))]
        );
        assert_eq!(app.generator_type, name);
    }
}

#[test]
fn some_messages_are_not_accepted() {
    let app = App::new(2);
    let updates = |controller| {
        Message::HostMessage(UIMessage::UpdateControllers((at(0), vec![(controller, level(0.0))])))
    };
    assert!(app.accepts(&updates(1), at(0)));
    assert!(!app.accepts(&updates(2), at(0)));
    assert!(app.accepts(&updates(1), at(FIRST_SECOND + 5)));
    assert!(!app.accepts(&updates(1), at(FIRST_SECOND + 4)));
    assert!(!app.accepts(&updates(1), Timestamp { secs: 0, nanos: 1_000_000_000 }));
    assert!(!app.accepts(&Message::ChangeGenerators("Other".to_string()), at(0)));
    assert!(app.accepts(&Message::Nothing, at(0)));
    assert!(app.accepts(&Message::HostMessage(UIMessage::Die), at(0)));
}

#[test]
fn empty_charts_end_now() {
    let chart = WaveformChart::new();
    assert_eq!(chart.newest_time(at(5)), at(5));
    assert_eq!(chart.oldest_time(at(6)), at(6));
    assert_eq!(chart.current_level(), level(0.0));
}

#[test]
fn charts_span_their_points() {
    let mut chart = WaveformChart::new();
    for (secs, value) in [(3, 0.1), (4, 0.2), (6, 0.3)] {
        chart.update(UpdateState {
            time: at(secs),
            new_value: level(value),
            old_time: at(0),
        });
    }
    assert_eq!(chart.oldest_time(at(50)), at(3));
    assert_eq!(chart.newest_time(at(50)), at(6));
    assert_eq!(chart.current_level(), level(0.3));
}

#[test]
fn charts_drop_points_out_of_order() {
    let mut chart = WaveformChart::new();
    for secs in [9, 2, 7] {
        chart.update(UpdateState {
            time: at(secs),
            new_value: level(0.5),
            old_time: at(0),
        });
    }
    chart.update(UpdateState { time: at(3), new_value: level(0.5), old_time: at(3) });
    assert_eq!(points(&chart), vec![(9, 0.5), (7, 0.5), (3, 0.5)]);
}

#[test]
fn charts_keep_points_at_the_old_time() {
    let mut chart = WaveformChart::new();
    chart.update(UpdateState { time: at(10), new_value: level(0.25), old_time: at(0) });
    chart.update(UpdateState { time: at(20), new_value: level(0.5), old_time: at(10) });
    assert_eq!(points(&chart), vec![(10, 0.25), (20, 0.5)]);
    let old_time = Timestamp { secs: 10, nanos: 1 };
    chart.update(UpdateState { time: at(21), new_value: level(0.75), old_time });
    assert_eq!(points(&chart), vec![(20, 0.5), (21, 0.75)]);
}

#[test]
fn charts_take_several_points_at_once() {
    let mut app = App::new(2);
    let updates = vec![(1, level(0.5)), (0, level(0.125)), (1, level(0.25))];
    app.update(
        Message::HostMessage(UIMessage::UpdateControllers((at(99), updates))),
        at(100),
    );
    assert_eq!(points(&app.charts[0]), vec![(99, 0.125)]);
    assert_eq!(points(&app.charts[1]), vec![(99, 0.5), (99, 0.25)]);
}
