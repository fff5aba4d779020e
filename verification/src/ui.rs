//! The editor.

pub mod chart;

use vstd::prelude::*;

use crate::generator::GeneratorType;
use crate::level::Level;
use crate::time;
use crate::time::Timestamp;
use crate::ui::chart::{ChartView, UpdateState, WaveformChart};

verus! {

/// How many seconds of a controller's past its chart shows.
pub const CHART_SECONDS: i64 = 5;

/// Message that the editor handles.
#[derive(Clone, Debug)]
pub enum Message {
    /// Nothing to handle.
    Nothing,
    /// A message from the plugin.
    HostMessage(UIMessage),
    /// The user picked the kind of generators with this name.
    ChangeGenerators(String),
}

/// Message from the plugin to the editor. Window handles are held as numbers.
#[derive(Debug)]
pub enum UIMessage {
    ShowEditor(Option<isize>),
    UpdateControllers((Timestamp, Vec<(usize, Level)>)),
    Die,
}

impl Clone for UIMessage {
    fn clone(&self) -> (copy: UIMessage)
        ensures
            match (*self, copy) {
                (UIMessage::ShowEditor(handle), UIMessage::ShowEditor(copied)) => handle == copied,
                (
                    UIMessage::UpdateControllers((time, updates)),
                    UIMessage::UpdateControllers((copied_time, copied)),
                ) => time == copied_time && updates@ == copied@,
                (UIMessage::Die, UIMessage::Die) => true,
                _ => false,
            },
    {
        match self {
            UIMessage::ShowEditor(handle) => UIMessage::ShowEditor(*handle),
            UIMessage::UpdateControllers((time, updates)) => {
                let mut copied: Vec<(usize, Level)> = Vec::new();
                for i in 0..updates.len()
                    invariant
                        copied@ == updates@.take(i as int),
                {
                    copied.push(updates[i]);
                }
                assert(updates@.take(updates@.len() as int) == updates@);
                UIMessage::UpdateControllers((*time, copied))
            },
            UIMessage::Die => UIMessage::Die,
        }
    }
}

/// Message from the editor to the plugin.
#[derive(Clone, Copy, Debug, PartialEq, Eq, Structural)]
pub enum HostMessage {
    SetEditorHandle(Option<isize>),
    ChangeGenerators(GeneratorType),
}

/// What is to be done after a message, in this order.
#[derive(Clone, Copy, Debug, PartialEq, Eq, Structural)]
pub enum UiAction {
    /// Make the first window a child of the second one. Zero stands for no window.
    SetParent { window: isize, parent: isize },
    Show { window: isize },
    Hide { window: isize },
    /// Send a message to the plugin.
    Send(HostMessage),
}

/// The editor.
#[derive(Debug)]
pub struct App {
    /// The editor's own window, once there is one.
    pub hwnd: Option<isize>,
    pub charts: Vec<WaveformChart>,
    pub should_exit: bool,
    pub should_draw: bool,
    /// The name of the kind of generators that was picked last.
    pub generator_type: String,
}

/// What the editor shows above the charts.
#[derive(Debug)]
pub struct EditorView {
    /// The names to pick from.
    pub options: Vec<String>,
    /// The name that stands as picked.
    pub selected: Option<String>,
}

/// The charts after the first `n` of a run of updates.
pub open spec fn charts_after(
    charts: Seq<ChartView>,
    updates: Seq<(usize, Level)>,
    time: Timestamp,
    old_time: Timestamp,
    n: nat,
) -> Seq<ChartView>
    decreases n,
{
    if n == 0 {
        charts
    } else {
        let before = charts_after(charts, updates, time, old_time, (n - 1) as nat);
        let (controller, new_value) = updates[n - 1];
        before.update(
            controller as int,
            ChartView {
                points: WaveformChart::updated(
                    before[controller as int].points,
                    UpdateState { time, new_value, old_time },
                ),
                outdated: true,
            },
        )
    }
}

/// What happens to the windows when the host wants the editor in a window of its own, or no
/// longer.
pub open spec fn window_actions(hwnd: Option<isize>, parent: Option<isize>) -> Seq<UiAction> {
    let window = match hwnd {
        Some(handle) => handle,
        None => 0,
    };
    match parent {
        Some(parent) => seq![UiAction::SetParent { window, parent }, UiAction::Show { window }],
        None => seq![UiAction::Hide { window }, UiAction::SetParent { window, parent: 0 }],
    }
}

impl App {
    pub open spec fn spec_charts(self) -> Seq<ChartView> {
        self.charts@.map_values(|c: WaveformChart| c@)
    }

    /// Whether the editor can handle the message: updates are for charts that exist, come at a
    /// time that the calendar reaches back from, and a kind of generators goes by the name that
    /// was picked.
    pub open spec fn can_update(self, message: Message, now: Timestamp) -> bool {
        match message {
            Message::HostMessage(UIMessage::UpdateControllers((_, updates))) => {
                &&& now.valid()
                &&& now.secs - CHART_SECONDS >= time::FIRST_SECOND
                &&& forall|k: int|
                    0 <= k < updates@.len() ==> (#[trigger] updates@[k]).0 < self.charts@.len()
            },
            Message::ChangeGenerators(name) => exists|kind: GeneratorType|
                name@ == #[trigger] kind.spec_name(),
            _ => true,
        }
    }

    /// What a message comes to.
    pub open spec fn update_outcome(
        self,
        message: Message,
        now: Timestamp,
        actions: Seq<UiAction>,
        after: App,
    ) -> bool {
        &&& after.hwnd == self.hwnd
        &&& match message {
            Message::Nothing => {
                &&& actions == Seq::<UiAction>::empty()
                &&& after == self
            },
            Message::HostMessage(UIMessage::ShowEditor(parent)) => {
                &&& actions == window_actions(self.hwnd, parent).push(
                    UiAction::Send(HostMessage::SetEditorHandle(self.hwnd)),
                )
                &&& after == (App { should_draw: parent is Some, ..self })
            },
            Message::HostMessage(UIMessage::UpdateControllers((time, updates))) => {
                &&& actions == Seq::<UiAction>::empty()
                &&& after.spec_charts() == charts_after(
                    self.spec_charts(),
                    updates@,
                    time,
                    now.spec_earlier(CHART_SECONDS as int),
                    updates@.len(),
                )
                &&& after.charts@.len() == self.charts@.len()
                &&& after == (App { charts: after.charts, ..self })
            },
            Message::HostMessage(UIMessage::Die) => {
                &&& actions == Seq::<UiAction>::empty()
                &&& after == (App { should_exit: true, ..self })
            },
            Message::ChangeGenerators(name) => {
                &&& forall|kind: GeneratorType|
                    name@ == #[trigger] kind.spec_name() ==> actions == seq![
                        UiAction::Send(HostMessage::ChangeGenerators(kind)),
                    ]
                &&& after == (App { generator_type: name, ..self })
            },
        }
    }

    /// An editor that has no window yet, with an empty chart for each controller.
    pub fn new(controller_count: usize) -> (app: App)
        ensures
            app.hwnd is None,
            app.charts@.len() == controller_count,
            app.spec_charts() == Seq::new(
                controller_count as nat,
                |i: int| ChartView { points: Seq::empty(), outdated: true },
            ),
            !app.should_exit,
            !app.should_draw,
            app.generator_type@ == "Deranged put something here please"@,
    {
        let mut charts: Vec<WaveformChart> = Vec::new();
        for i in 0..controller_count
            invariant
                charts@.len() == i,
                charts@.map_values(|c: WaveformChart| c@) == Seq::new(
                    i as nat,
                    |i: int| ChartView { points: Seq::empty(), outdated: true },
                ),
        {
            let ghost before = charts@.map_values(|c: WaveformChart| c@);
            charts.push(WaveformChart::new());
            assert(charts@.map_values(|c: WaveformChart| c@) == before.push(
                ChartView { points: Seq::empty(), outdated: true },
            ));
        }
        App {
            hwnd: None,
            charts,
            should_exit: false,
            should_draw: false,
            generator_type: String::from_str("Deranged put something here please"),
        }
    }

    /// The title of the editor's window.
    pub fn title(&self) -> (title: String)
        ensures
            title@ == "test Counter - Iced"@,
    {
        String::from_str("test Counter - Iced")
    }

    /// Takes note of the editor's own window.
    pub fn hwnd(&mut self, hwnd: isize)
        ensures
            *final(self) == (App { hwnd: Some(hwnd), ..*old(self) }),
    {
        self.hwnd = Some(hwnd);
    }

    /// Whether the editor is to be closed.
    pub fn should_exit(&self) -> (exit: bool)
        ensures
            exit == self.should_exit,
    {
        self.should_exit
    }

    /// Reports whether the editor can handle the message at the time `now`.
    pub fn accepts(&self, message: &Message, now: Timestamp) -> (accepts: bool)
        ensures
            accepts == self.can_update(*message, now),
    {
        match message {
            Message::HostMessage(UIMessage::UpdateControllers((_, updates))) => {
                if !now.is_valid() || now.secs < time::FIRST_SECOND + CHART_SECONDS {
                    return false;
                }
                let mut fits: bool = true;
                for i in 0..updates.len()
                    invariant
                        fits == (forall|k: int|
                            0 <= k < i ==> (#[trigger] updates@[k]).0 < self.charts@.len()),
                {
                    if updates[i].0 >= self.charts.len() {
                        assert(updates@[i as int].0 >= self.charts@.len());
                        fits = false;
                    }
                }
                fits
            },
            Message::ChangeGenerators(name) => GeneratorType::from_name(name).is_some(),
            _ => true,
        }
    }

    /// Handles a message that comes at the time `now`.
    pub fn update(&mut self, message: Message, now: Timestamp) -> (actions: Vec<UiAction>)
        requires
            old(self).can_update(message, now),
        ensures
            old(self).update_outcome(message, now, actions@, *final(self)),
    {
        match message {
            Message::Nothing => Vec::new(),
            Message::HostMessage(UIMessage::ShowEditor(parent)) => {
                self.should_draw = parent.is_some();
                let window: isize = match self.hwnd {
                    Some(handle) => handle,
                    None => 0,
                };
                let mut actions: Vec<UiAction> = Vec::new();
                match parent {
                    Some(parent) => {
                        actions.push(UiAction::SetParent { window, parent });
                        actions.push(UiAction::Show { window });
                    },
                    None => {
                        actions.push(UiAction::Hide { window });
                        actions.push(UiAction::SetParent { window, parent: 0 });
                    },
                }
                assert(actions@ == window_actions(self.hwnd, parent));
                actions.push(UiAction::Send(HostMessage::SetEditorHandle(self.hwnd)));
                actions
            },
            Message::HostMessage(UIMessage::UpdateControllers((time, updates))) => {
                self.update_controllers(time, &updates, now);
                Vec::new()
            },
            Message::HostMessage(UIMessage::Die) => {
                self.should_exit = true;
                Vec::new()
            },
            Message::ChangeGenerators(name) => {
                let mut actions: Vec<UiAction> = Vec::new();
                if let Some(kind) = GeneratorType::from_name(&name) {
                    actions.push(UiAction::Send(HostMessage::ChangeGenerators(kind)));
                    proof {
                        assert forall|other: GeneratorType| name@
                            == #[trigger] other.spec_name() implies other == kind by {
                            crate::generator::names_tell_kinds_apart(kind, other);
                        }
                    }
                }
                self.generator_type = name;
                actions
            },
        }
    }

    fn update_controllers(&mut self, time: Timestamp, updates: &Vec<(usize, Level)>, now: Timestamp)
        requires
            now.valid(),
            now.secs - CHART_SECONDS >= time::FIRST_SECOND,
            forall|k: int|
                0 <= k < updates@.len() ==> (#[trigger] updates@[k]).0 < old(self).charts@.len(),
        ensures
            final(self).spec_charts() == charts_after(
                old(self).spec_charts(),
                updates@,
                time,
                now.spec_earlier(CHART_SECONDS as int),
                updates@.len(),
            ),
            final(self).charts@.len() == old(self).charts@.len(),
            *final(self) == (App { charts: final(self).charts, ..*old(self) }),
    {
        let old_time = now.earlier(CHART_SECONDS);
        let ghost charts = self.spec_charts();
        for i in 0..updates.len()
            invariant
                charts == old(self).spec_charts(),
                self.charts@.len() == old(self).charts@.len(),
                *self == (App { charts: self.charts, ..*old(self) }),
                forall|k: int|
                    0 <= k < updates@.len() ==> (#[trigger] updates@[k]).0
                        < old(self).charts@.len(),
                self.spec_charts() == charts_after(charts, updates@, time, old_time, i as nat),
        {
            let (controller, new_value): (usize, Level) = updates[i];
            assert(updates@[i as int].0 < self.charts@.len());
            let ghost before = self.charts@;
            self.charts[controller].update(UpdateState { time, new_value, old_time });
            assert(self.charts@ == before.update(
                controller as int,
                self.charts@[controller as int],
            ));
            assert(self.spec_charts() == charts_after(
                charts,
                updates@,
                time,
                old_time,
                (i + 1) as nat,
            ));
        }
    }

    /// What is shown above the charts. While the editor has no place in a window, there is
    /// nothing to show.
    pub fn view(&self) -> (view: Option<EditorView>)
        ensures
            view is Some <==> self.should_draw,
            view matches Some(view) ==> {
                &&& view.options@.len() == 2
                &&& view.options@[0]@ == GeneratorType::Random.spec_name()
                &&& view.options@[1]@ == GeneratorType::RandomInter.spec_name()
                &&& view.selected matches Some(name) && name@ == self.generator_type@
            },
    {
        if !self.should_draw {
            return None;
        }
        let mut options: Vec<String> = Vec::new();
        options.push(String::from_str(GeneratorType::Random.name()));
        options.push(String::from_str(GeneratorType::RandomInter.name()));
        Some(EditorView { options, selected: Some(self.generator_type.clone()) })
    }
}

/// Updates keep the number of charts, and a chart that none of them is for keeps its points and
/// its picture.
pub proof fn other_charts_are_left_alone(
    charts: Seq<ChartView>,
    updates: Seq<(usize, Level)>,
    time: Timestamp,
    old_time: Timestamp,
    n: nat,
    c: int,
)
    requires
        n <= updates.len(),
        0 <= c < charts.len(),
        forall|k: int| 0 <= k < n ==> (#[trigger] updates[k]).0 < charts.len(),
        forall|k: int| 0 <= k < n ==> (#[trigger] updates[k]).0 != c,
    ensures
        charts_after(charts, updates, time, old_time, n).len() == charts.len(),
        charts_after(charts, updates, time, old_time, n)[c] == charts[c],
    decreases n,
{
    if n > 0 {
        other_charts_are_left_alone(charts, updates, time, old_time, (n - 1) as nat, c);
        assert(updates[n - 1].0 != c);
    }
}

/// Where updates are for different charts, each chart gets the new point that is for it.
pub proof fn each_chart_gets_its_point(
    charts: Seq<ChartView>,
    updates: Seq<(usize, Level)>,
    time: Timestamp,
    old_time: Timestamp,
    n: nat,
    k: int,
)
    requires
        0 <= k < n <= updates.len(),
        forall|j: int| 0 <= j < n ==> (#[trigger] updates[j]).0 < charts.len(),
        forall|j: int| 0 <= j < n && j != k ==> (#[trigger] updates[j]).0 != updates[k].0,
    ensures
        charts_after(charts, updates, time, old_time, n)[updates[k].0 as int] == (ChartView {
            points: WaveformChart::updated(
                charts[updates[k].0 as int].points,
                UpdateState { time, new_value: updates[k].1, old_time },
            ),
            outdated: true,
        }),
    decreases n,
{
    let c = updates[k].0 as int;
    assert(updates[k].0 < charts.len());
    lemma_chart_count(charts, updates, time, old_time, (n - 1) as nat);
    if k == n - 1 {
        other_charts_are_left_alone(charts, updates, time, old_time, (n - 1) as nat, c);
    } else {
        each_chart_gets_its_point(charts, updates, time, old_time, (n - 1) as nat, k);
        assert(updates[n - 1].0 != c);
    }
}

/// The points that the first `n` of a run of updates bring for the chart at `c`, in their order.
pub open spec fn points_for(
    updates: Seq<(usize, Level)>,
    time: Timestamp,
    n: nat,
    c: int,
) -> Seq<(Timestamp, Level)>
    decreases n,
{
    if n == 0 {
        Seq::empty()
    } else {
        let before = points_for(updates, time, (n - 1) as nat, c);
        if updates[n - 1].0 == c {
            before.push((time, updates[n - 1].1))
        } else {
            before
        }
    }
}

/// A chart that some of the updates are for gets the new points of all of these, in their order,
/// and then holds what is not too old.
pub proof fn each_chart_gets_all_its_points(
    charts: Seq<ChartView>,
    updates: Seq<(usize, Level)>,
    time: Timestamp,
    old_time: Timestamp,
    n: nat,
    c: int,
)
    requires
        n <= updates.len(),
        0 <= c < charts.len(),
        forall|k: int| 0 <= k < n ==> (#[trigger] updates[k]).0 < charts.len(),
        exists|k: int| 0 <= k < n && (#[trigger] updates[k]).0 == c,
    ensures
        charts_after(charts, updates, time, old_time, n)[c] == (ChartView {
            points: chart::recent(charts[c].points + points_for(updates, time, n, c), old_time),
            outdated: true,
        }),
    decreases n,
{
    let before = points_for(updates, time, (n - 1) as nat, c);
    lemma_chart_count(charts, updates, time, old_time, (n - 1) as nat);
    if updates[n - 1].0 == c {
        let p = (time, updates[n - 1].1);
        assert(charts[c].points + before.push(p) == (charts[c].points + before).push(p));
        if exists|k: int| 0 <= k < n - 1 && (#[trigger] updates[k]).0 == c {
            each_chart_gets_all_its_points(charts, updates, time, old_time, (n - 1) as nat, c);
            chart::lemma_recent_of_recent(charts[c].points + before, old_time, p);
        } else {
            other_charts_are_left_alone(charts, updates, time, old_time, (n - 1) as nat, c);
            lemma_no_points_for(updates, time, (n - 1) as nat, c);
            assert(charts[c].points + before == charts[c].points);
        }
    } else {
        let k = choose|k: int| 0 <= k < n && (#[trigger] updates[k]).0 == c;
        assert(k < n - 1);
        each_chart_gets_all_its_points(charts, updates, time, old_time, (n - 1) as nat, c);
    }
}

proof fn lemma_no_points_for(updates: Seq<(usize, Level)>, time: Timestamp, n: nat, c: int)
    requires
        forall|k: int| 0 <= k < n ==> (#[trigger] updates[k]).0 != c,
    ensures
        points_for(updates, time, n, c) == Seq::<(Timestamp, Level)>::empty(),
    decreases n,
{
    if n > 0 {
        lemma_no_points_for(updates, time, (n - 1) as nat, c);
        assert(updates[n - 1].0 != c);
    }
}

proof fn lemma_chart_count(
    charts: Seq<ChartView>,
    updates: Seq<(usize, Level)>,
    time: Timestamp,
    old_time: Timestamp,
    n: nat,
)
    requires
        n <= updates.len(),
        forall|k: int| 0 <= k < n ==> (#[trigger] updates[k]).0 < charts.len(),
    ensures
        charts_after(charts, updates, time, old_time, n).len() == charts.len(),
    decreases n,
{
    if n > 0 {
        lemma_chart_count(charts, updates, time, old_time, (n - 1) as nat);
        assert(updates[n - 1].0 < charts.len());
    }
}

/// Every name that the editor offers is one that it can handle, and picking it has the plugin
/// change to the kind of that name.
pub proof fn offered_names_are_handled(
    app: App,
    kind: GeneratorType,
    name: String,
    now: Timestamp,
    actions: Seq<UiAction>,
    after: App,
)
    requires
        name@ == kind.spec_name(),
        app.update_outcome(Message::ChangeGenerators(name), now, actions, after),
    ensures
        app.can_update(Message::ChangeGenerators(name), now),
        actions == seq![UiAction::Send(HostMessage::ChangeGenerators(kind))],
        after.generator_type@ == kind.spec_name(),
{
}

/// Once the editor is to be closed, no message keeps it open.
pub proof fn closing_is_final(
    app: App,
    message: Message,
    now: Timestamp,
    actions: Seq<UiAction>,
    after: App,
)
    requires
        app.should_exit,
        app.update_outcome(message, now, actions, after),
    ensures
        after.should_exit,
{
}

/// Showing the editor moves its window into that of the host and shows it, hiding it does the
/// opposite in the opposite order, and either way the plugin is sent the editor's own window. The
/// editor draws itself from then on exactly when it is shown.
pub proof fn windows_are_moved_in_and_out(
    app: App,
    parent: Option<isize>,
    now: Timestamp,
    actions: Seq<UiAction>,
    after: App,
)
    requires
        app.update_outcome(
            Message::HostMessage(UIMessage::ShowEditor(parent)),
            now,
            actions,
            after,
        ),
    ensures
        ({
            let window = if app.hwnd is Some {
                app.hwnd->0
            } else {
                0
            };
            &&& actions.len() == 3
            &&& parent matches Some(parent) ==> actions[0] == (UiAction::SetParent {
                window,
                parent,
            }) && actions[1] == (UiAction::Show { window })
            &&& parent is None ==> actions[0] == (UiAction::Hide { window }) && actions[1] == (
            UiAction::SetParent { window, parent: 0 })
            &&& actions[2] == UiAction::Send(HostMessage::SetEditorHandle(app.hwnd))
        }),
        after.should_draw == parent is Some,
        after.hwnd == app.hwnd,
        after.charts == app.charts,
        after.should_exit == app.should_exit,
        after.generator_type == app.generator_type,
{
}

/// Each message changes only what it is about: dying ends the editor, a picked name stands as
/// picked and is sent on as the kind of that name, updates go to the charts, and a message without
/// anything to handle changes nothing.
pub proof fn messages_change_what_they_are_about(
    app: App,
    message: Message,
    now: Timestamp,
    actions: Seq<UiAction>,
    after: App,
)
    requires
        app.update_outcome(message, now, actions, after),
    ensures
        message is Nothing ==> after == app && actions.len() == 0,
        message matches Message::HostMessage(UIMessage::Die) ==> {
            &&& after.should_exit
            &&& actions.len() == 0
            &&& after.should_draw == app.should_draw
            &&& after.hwnd == app.hwnd
            &&& after.charts == app.charts
            &&& after.generator_type == app.generator_type
        },
        message matches Message::HostMessage(UIMessage::UpdateControllers(_)) ==> {
            &&& actions.len() == 0
            &&& after.should_exit == app.should_exit
            &&& after.should_draw == app.should_draw
            &&& after.hwnd == app.hwnd
            &&& after.generator_type == app.generator_type
        },
        message matches Message::ChangeGenerators(name) ==> {
            &&& after.generator_type == name
            &&& name@ == "Random"@ ==> actions == seq![
                UiAction::Send(HostMessage::ChangeGenerators(GeneratorType::Random)),
            ]
            &&& name@ == "RandomInter"@ ==> actions == seq![
                UiAction::Send(HostMessage::ChangeGenerators(GeneratorType::RandomInter)),
            ]
            &&& after.should_exit == app.should_exit
            &&& after.should_draw == app.should_draw
            &&& after.hwnd == app.hwnd
            &&& after.charts == app.charts
        },
{
    if let Message::ChangeGenerators(name) = message {
        assert(GeneratorType::Random.spec_name() == "Random"@);
        assert(GeneratorType::RandomInter.spec_name() == "RandomInter"@);
    }
}

/// The editor handles every message but a name that is no kind's, an update for a chart that there
/// is not, and updates at a time that the calendar does not reach back from by five seconds.
pub proof fn few_messages_cannot_be_handled(app: App, message: Message, now: Timestamp)
    ensures
        message matches Message::ChangeGenerators(name) ==> (app.can_update(message, now) <==> name@
            == "Random"@ || name@ == "RandomInter"@),
        message matches Message::HostMessage(UIMessage::UpdateControllers((_, updates))) ==> (
        app.can_update(message, now) <==> now.valid() && now.secs - 5 >= time::FIRST_SECOND && (
        forall|k: int|
            0 <= k < updates@.len() ==> (#[trigger] updates@[k]).0 < app.charts@.len())),
        message is Nothing ==> app.can_update(message, now),
        message matches Message::HostMessage(UIMessage::Die) ==> app.can_update(message, now),
        message matches Message::HostMessage(UIMessage::ShowEditor(_)) ==> app.can_update(
            message,
            now,
        ),
{
    if let Message::ChangeGenerators(name) = message {
        assert(GeneratorType::Random.spec_name() == "Random"@);
        assert(GeneratorType::RandomInter.spec_name() == "RandomInter"@);
    }
}

/// Each chart gets the new points that are for it, at the time that they come with and in their
/// order, and keeps what is not older than a time five seconds before now. A chart that gets none
/// stays as it is.
pub proof fn updates_reach_their_charts(
    app: App,
    time: Timestamp,
    updates: Vec<(usize, Level)>,
    now: Timestamp,
    old_time: Timestamp,
    actions: Seq<UiAction>,
    after: App,
    c: int,
)
    requires
        app.can_update(Message::HostMessage(UIMessage::UpdateControllers((time, updates))), now),
        app.update_outcome(
            Message::HostMessage(UIMessage::UpdateControllers((time, updates))),
            now,
            actions,
            after,
        ),
        old_time.secs * 1_000_000_000 + old_time.nanos + 5_000_000_000 == now.secs * 1_000_000_000
            + now.nanos,
        old_time.nanos < 1_000_000_000,
        0 <= c < app.charts@.len(),
    ensures
        after.charts@.len() == app.charts@.len(),
        (exists|k: int| 0 <= k < updates@.len() && (#[trigger] updates@[k]).0 == c) ==> {
            &&& after.charts@[c].values@ == chart::recent(
                app.charts@[c].values@ + points_for(updates@, time, updates@.len(), c),
                old_time,
            )
            &&& after.charts@[c].outdated
        },
        (forall|k: int| 0 <= k < updates@.len() ==> (#[trigger] updates@[k]).0 != c) ==> {
            &&& after.charts@[c].values@ == app.charts@[c].values@
            &&& after.charts@[c].outdated == app.charts@[c].outdated
        },
{
    time::earlier_is_by_exactly_the_seconds(now, 5);
    assert(now.spec_earlier(CHART_SECONDS as int) == old_time);
    assert(app.spec_charts()[c] == app.charts@[c]@);
    assert(after.spec_charts()[c] == after.charts@[c]@);
    if exists|k: int| 0 <= k < updates@.len() && (#[trigger] updates@[k]).0 == c {
        each_chart_gets_all_its_points(
            app.spec_charts(),
            updates@,
            time,
            old_time,
            updates@.len(),
            c,
        );
    } else {
        other_charts_are_left_alone(
            app.spec_charts(),
            updates@,
            time,
            old_time,
            updates@.len(),
            c,
        );
    }
}

/// An update brings one point, at the time that it comes with, for the chart that it is for and for
/// no other one, behind those of the updates in front of it.
pub proof fn each_update_brings_one_point(
    updates: Seq<(usize, Level)>,
    time: Timestamp,
    n: nat,
    c: int,
)
    requires
        n < updates.len(),
    ensures
        points_for(updates, time, 0, c).len() == 0,
        updates[n as int].0 == c ==> points_for(updates, time, n + 1, c) == points_for(
            updates,
            time,
            n,
            c,
        ).push((time, updates[n as int].1)),
        updates[n as int].0 != c ==> points_for(updates, time, n + 1, c) == points_for(
            updates,
            time,
            n,
            c,
        ),
{
}

} // verus!
