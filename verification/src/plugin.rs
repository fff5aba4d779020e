//! The plugin as the host sees it.

use vstd::prelude::*;

use crate::generator::{Generator, GeneratorType};
use crate::shared::PluginShared;
use crate::text;
use crate::time::Timestamp;
use crate::ui::{App, HostMessage, Message, UIMessage, UiAction};

verus! {

/// How many output controllers the plugin has.
pub const CONTROLLER_COUNT: u32 = 100;

/// How many of them are put to use in a debug build.
pub const DEBUG_CONTROLLER_COUNT: u32 = 10;

/// How many messages to the editor, or from it, can wait.
pub const CHANNEL_CAPACITY: usize = 100;

/// How many controllers have a generator.
pub fn controller_count(debug: bool) -> (count: u32)
    ensures
        count == (if debug {
            DEBUG_CONTROLLER_COUNT
        } else {
            CONTROLLER_COUNT
        }),
{
    if debug {
        DEBUG_CONTROLLER_COUNT
    } else {
        CONTROLLER_COUNT
    }
}

/// What the host is told about the plugin.
#[derive(Debug)]
pub struct PluginInfo {
    pub long_name: &'static str,
    pub short_name: &'static str,
    pub num_params: u32,
    pub num_out_ctrls: u32,
    pub num_out_voices: u32,
    /// The plugin wants to be called on each tick.
    pub want_new_tick: bool,
    /// The plugin reacts to notes.
    pub get_note_input: bool,
}

/// What the host can ask the name of.
#[derive(Clone, Copy, Debug, PartialEq, Eq, Structural)]
pub enum NameOf {
    /// The output controller with this number.
    OutCtrl(usize),
    Other,
}

/// What the host asks of the plugin. Window handles are held as numbers.
#[derive(Clone, Copy, Debug, PartialEq, Eq, Structural)]
pub enum HostRequest {
    SetEnabled(bool),
    /// Show the editor in this window, or hide it.
    ShowEditor(Option<isize>),
    Other,
}

/// What is to be done after a message, in this order.
#[derive(Debug)]
pub enum Action {
    /// Ask the host for the current selection and write it to the host's debug log.
    LogSelection,
    /// Have the host show the hint of `hello_hint`.
    SayHello,
    /// Start the editor, which gets the receiving end of the messages to it.
    StartUi,
    /// Send a message to the editor.
    SendUi(UIMessage),
    /// Write to the host's debug log that the generators change to this kind.
    LogChange(GeneratorType),
    /// Tell the host which window the editor is.
    SetEditorHandle(isize),
    /// Wait until the editor has ended.
    JoinUi,
}

/// What the plugin keeps for the host's calls alone.
#[derive(Clone, Copy, Debug, PartialEq, Eq, Structural)]
pub struct Plugin {
    /// Whether the host has handed over what it takes to tell it about the editor's window.
    pub has_proxy: bool,
    /// Whether the receiving end of the messages to the editor is still here.
    pub holds_ui_receiver: bool,
    /// Whether an editor was started that has not been waited for.
    pub ui_runs: bool,
}

/// The shared state once the editor was told to show itself in a window, or to hide.
pub open spec fn shared_told(shared: PluginShared, handle: Option<isize>) -> PluginShared {
    PluginShared { editor_visible: handle is Some, ..shared }
}

/// The state in which every generator is a fresh one of the given kind.
pub open spec fn has_fresh_generators(
    before: PluginShared,
    kind: GeneratorType,
    after: PluginShared,
) -> bool {
    &&& after.generators@ == Seq::new(
        before.generators@.len(),
        |i: int| Generator::spec_fresh(kind),
    )
    &&& after == (PluginShared { generators: after.generators, ..before })
}

impl Plugin {
    /// The plugin after a request of the host.
    pub open spec fn requested(self, request: HostRequest) -> Plugin {
        if request == HostRequest::SetEnabled(true) {
            Plugin { holds_ui_receiver: false, ui_runs: true, ..self }
        } else {
            self
        }
    }

    /// A plugin that the host has just created.
    pub fn new() -> (plugin: Plugin)
        ensures
            plugin == (Plugin { has_proxy: false, holds_ui_receiver: true, ui_runs: false }),
    {
        Plugin { has_proxy: false, holds_ui_receiver: true, ui_runs: false }
    }

    /// Takes note that the host can be told about the editor's window.
    pub fn proxy(&mut self)
        ensures
            *final(self) == (Plugin { has_proxy: true, ..*old(self) }),
    {
        self.has_proxy = true;
    }

    /// What the host is told about the plugin.
    pub fn info(&self) -> (info: PluginInfo)
        ensures
            info.long_name@ == "emilydotgg-random"@,
            info.short_name@ == "Random"@,
            info.num_params == 3,
            info.num_out_ctrls == CONTROLLER_COUNT,
            info.num_out_voices == 100,
            info.want_new_tick,
            info.get_note_input,
    {
        PluginInfo {
            long_name: "emilydotgg-random",
            short_name: "Random",
            num_params: 3,
            num_out_ctrls: CONTROLLER_COUNT,
            num_out_voices: 100,
            want_new_tick: true,
            get_note_input: true,
        }
    }

    /// The name of an output controller, or what is said of anything else.
    pub fn name_of(&self, of: NameOf) -> (name: String)
        ensures
            name@ == (match of {
                NameOf::OutCtrl(index) => "Control "@ + text::decimal(index as nat),
                NameOf::Other => "What?"@,
            }),
    {
        match of {
            NameOf::OutCtrl(index) => {
                let mut name = String::from_str("Control ");
                name.append(text::decimal_text(index as u64).as_str());
                name
            },
            NameOf::Other => String::from_str("What?"),
        }
    }

    /// The hint that greets the user.
    pub fn hello_hint(&self) -> (hint: String)
        ensures
            hint@ == "^c Hello"@,
    {
        String::from_str("^c Hello")
    }

    /// Handles what the host asks. The editor can be started once. Once a request to show it has
    /// been sent on, `editor_told` takes note of that.
    pub fn on_message(&mut self, request: HostRequest) -> (actions: Vec<Action>)
        requires
            request == HostRequest::SetEnabled(true) ==> old(self).holds_ui_receiver,
        ensures
            actions@ == (match request {
                HostRequest::SetEnabled(enabled) => if enabled {
                    seq![Action::LogSelection, Action::SayHello, Action::StartUi]
                } else {
                    seq![Action::LogSelection, Action::SayHello]
                },
                HostRequest::ShowEditor(handle) => seq![
                    Action::SendUi(UIMessage::ShowEditor(handle)),
                ],
                HostRequest::Other => seq![],
            }),
            *final(self) == old(self).requested(request),
            request matches HostRequest::ShowEditor(handle) ==> actions@.len() == 1 && actions@[0]
                == Action::SendUi(UIMessage::ShowEditor(handle)),
            request is SetEnabled ==> actions@.len() >= 2 && actions@[0] == Action::LogSelection
                && actions@[1] == Action::SayHello,
            actions@.contains(Action::StartUi) <==> request == HostRequest::SetEnabled(true),
    {
        let mut actions: Vec<Action> = Vec::new();
        match request {
            HostRequest::SetEnabled(enabled) => {
                actions.push(Action::LogSelection);
                actions.push(Action::SayHello);
                if enabled {
                    self.holds_ui_receiver = false;
                    self.ui_runs = true;
                    actions.push(Action::StartUi);
                }
            },
            HostRequest::ShowEditor(handle) => {
                actions.push(Action::SendUi(UIMessage::ShowEditor(handle)));
            },
            HostRequest::Other => {},
        }
        proof {
            if request == HostRequest::SetEnabled(true) {
                assert(actions@[2] == Action::StartUi);
            }
        }
        actions
    }

    /// Takes note that the editor was told to show itself in this window, or to hide. A message
    /// that the editor did not get leaves it as visible as it was.
    pub fn editor_told(&self, shared: &mut PluginShared, handle: Option<isize>)
        ensures
            *final(shared) == shared_told(*old(shared), handle),
    {
        shared.editor_visible = handle.is_some();
    }

    /// What the host's debug log gets for a selection that is written like this.
    pub fn selection_line(&self, shown: &str) -> (line: String)
        ensures
            line@ == "current selection or full song range is: "@ + shown@,
    {
        let mut line = String::from_str("current selection or full song range is: ");
        line.append(shown);
        line
    }

    /// Handles a message from the editor. Once a change of generators is in the host's debug log,
    /// `change_logged` makes it.
    pub fn on_ui_message(&self, message: HostMessage) -> (action: Action)
        requires
            message matches HostMessage::SetEditorHandle(handle) ==> self.has_proxy
                && handle is Some,
        ensures
            match message {
                HostMessage::SetEditorHandle(handle) => handle matches Some(handle) && action
                    == Action::SetEditorHandle(handle),
                HostMessage::ChangeGenerators(kind) => action == Action::LogChange(kind),
            },
    {
        match message {
            HostMessage::SetEditorHandle(handle) => Action::SetEditorHandle(handle.unwrap()),
            HostMessage::ChangeGenerators(kind) => Action::LogChange(kind),
        }
    }

    /// Makes a change of generators that is in the host's debug log.
    pub fn change_logged(&self, shared: &mut PluginShared, kind: GeneratorType)
        ensures
            has_fresh_generators(*old(shared), kind, *final(shared)),
    {
        shared.change_generators(kind);
    }

    /// Prepares for the end of the plugin: the editor is told, and waited for where one runs.
    pub fn shut_down(&mut self) -> (actions: Vec<Action>)
        ensures
            actions@ == (if old(self).ui_runs {
                seq![Action::SendUi(UIMessage::Die), Action::JoinUi]
            } else {
                seq![Action::SendUi(UIMessage::Die)]
            }),
            *final(self) == (Plugin { ui_runs: false, ..*old(self) }),
            actions@.len() >= 1 && actions@[0] == Action::SendUi(UIMessage::Die),
            actions@.contains(Action::JoinUi) <==> old(self).ui_runs,
    {
        let mut actions: Vec<Action> = Vec::new();
        actions.push(Action::SendUi(UIMessage::Die));
        if self.ui_runs {
            self.ui_runs = false;
            actions.push(Action::JoinUi);
            assert(actions@[1] == Action::JoinUi);
        }
        actions
    }
}

/// Passes the sound on as it is, sample by sample, as far as both buffers reach.
pub fn render<T: Copy>(input: &[[T; 2]], output: &mut [[T; 2]])
    ensures
        final(output)@.len() == old(output)@.len(),
        forall|i: int|
            0 <= i < old(output)@.len() ==> #[trigger] final(output)@[i] == (if i < input@.len() {
                input@[i]
            } else {
                old(output)@[i]
            }),
        input@.len() == old(output)@.len() ==> final(output)@ == input@,
        input@.len() <= old(output)@.len() ==> final(output)@ == input@ + old(output)@.skip(
            input@.len() as int,
        ),
{
    let length: usize = if input.len() < output.len() {
        input.len()
    } else {
        output.len()
    };
    for i in 0..length
        invariant
            length <= input@.len(),
            length <= output@.len(),
            output@.len() == old(output)@.len(),
            forall|j: int| 0 <= j < i ==> output@[j] == input@[j],
            forall|j: int| i <= j < output@.len() ==> output@[j] == old(output)@[j],
    {
        output[i] = input[i];
    }
}

/// Neither showing or hiding the editor nor a change of generators takes a generator off its
/// course.
pub proof fn messages_keep_the_course(
    shared: PluginShared,
    handle: Option<isize>,
    kind: GeneratorType,
    changed: PluginShared,
)
    requires
        shared.on_course(),
        has_fresh_generators(shared, kind, changed),
    ensures
        shared_told(shared, handle).on_course(),
        changed.on_course(),
{
    let after = shared_told(shared, handle);
    assert forall|i: int| 0 <= i < after.generators@.len() implies (
    #[trigger] after.generators@[i]).on_course(after.tick) by {
        assert(shared.generators@[i].on_course(shared.tick));
    }
}

/// Once the editor was told to show itself or to hide, the plugin takes it for visible exactly when
/// the editor, having handled that message, draws itself.
pub proof fn visibility_is_agreed_on(
    shared: PluginShared,
    handle: Option<isize>,
    app: App,
    now: Timestamp,
    actions: Seq<UiAction>,
    after: App,
)
    requires
        app.update_outcome(
            Message::HostMessage(UIMessage::ShowEditor(handle)),
            now,
            actions,
            after,
        ),
    ensures
        shared_told(shared, handle).editor_visible == after.should_draw,
{
}

/// A name that the user picks in the editor reaches the plugin as the kind of that name: every
/// generator becomes a fresh one of it.
pub proof fn picked_kind_arrives(
    app: App,
    kind: GeneratorType,
    name: String,
    now: Timestamp,
    sent: HostMessage,
    after: App,
    shared: PluginShared,
    changed: PluginShared,
)
    requires
        name@ == kind.spec_name(),
        app.update_outcome(
            Message::ChangeGenerators(name),
            now,
            seq![UiAction::Send(sent)],
            after,
        ),
        sent matches HostMessage::ChangeGenerators(sent_kind) ==> has_fresh_generators(
            shared,
            sent_kind,
            changed,
        ),
    ensures
        changed.generators@.len() == shared.generators@.len(),
        forall|i: int|
            0 <= i < changed.generators@.len() ==> (#[trigger] changed.generators@[i]).kind()
                == kind,
{
    let actions = seq![UiAction::Send(sent)];
    assert(actions[0] == UiAction::Send(HostMessage::ChangeGenerators(kind)));
}

/// The editor is started at most once: after that no request brings back what it takes.
pub proof fn editor_starts_once(plugin: Plugin, request: HostRequest)
    ensures
        !plugin.requested(HostRequest::SetEnabled(true)).holds_ui_receiver,
        !plugin.holds_ui_receiver ==> !plugin.requested(request).holds_ui_receiver,
{
}

/// Telling the editor to show itself or to hide makes it visible or not, and changes nothing else.
pub proof fn telling_the_editor_changes_its_visibility_only(
    shared: PluginShared,
    handle: Option<isize>,
)
    ensures
        shared_told(shared, handle).editor_visible == handle is Some,
        shared_told(shared, handle).generators == shared.generators,
        shared_told(shared, handle).inputs == shared.inputs,
        shared_told(shared, handle).tick == shared.tick,
        shared_told(shared, handle).tick_happened == shared.tick_happened,
        shared_told(shared, handle).controller_values == shared.controller_values,
{
}

/// A change of generators replaces each of them by one of the new kind that rests at zero and sets
/// out on the first tick, and changes nothing else.
pub proof fn changed_generators_are_fresh(
    before: PluginShared,
    kind: GeneratorType,
    after: PluginShared,
    i: int,
)
    requires
        has_fresh_generators(before, kind, after),
    ensures
        after.generators@.len() == before.generators@.len(),
        0 <= i < before.generators@.len() ==> match kind {
            GeneratorType::Random => after.generators@[i] == Generator::Random,
            GeneratorType::RandomInter => {
                after.generators@[i] matches Generator::RandomInter {
                    target_value,
                    target_tick,
                    initial_value,
                    initial_tick,
                } && target_value.bits == 0 && initial_value.bits == 0 && target_tick == 1
                    && initial_tick == 0
            },
        },
        after.inputs == before.inputs,
        after.tick == before.tick,
        after.tick_happened == before.tick_happened,
        after.controller_values == before.controller_values,
        after.editor_visible == before.editor_visible,
{
}

/// Enabling the plugin starts the editor, which takes what it needs. No other request changes what
/// the plugin keeps.
pub proof fn only_enabling_starts_the_editor(plugin: Plugin, request: HostRequest)
    ensures
        plugin.requested(HostRequest::SetEnabled(true)).ui_runs,
        !plugin.requested(HostRequest::SetEnabled(true)).holds_ui_receiver,
        plugin.requested(request).has_proxy == plugin.has_proxy,
        request != HostRequest::SetEnabled(true) ==> plugin.requested(request) == plugin,
{
}

} // verus!
