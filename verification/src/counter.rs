//! A small editor that counts, to try out the window handling.

use vstd::prelude::*;

use crate::text;

verus! {

/// How many messages to the editor, or from it, can wait.
pub const CHANNEL_CAPACITY: usize = 10;

/// Message that the editor handles.
#[derive(Clone, Copy, Debug, PartialEq, Eq, Structural)]
pub enum Message {
    /// Nothing to handle.
    Nothing,
    IncrementPressed,
    DecrementPressed,
    /// A message from the plugin.
    HostMessage(UIMessage),
}

/// Message from the plugin to the editor. Window handles are held as numbers.
#[derive(Clone, Copy, Debug, PartialEq, Eq, Structural)]
pub enum UIMessage {
    ShowEditor(Option<isize>),
}

/// Message from the editor to the plugin.
#[derive(Clone, Copy, Debug, PartialEq, Eq, Structural)]
pub enum HostMessage {
    SetEditorHandle(Option<isize>),
}

/// What is to be done after a message, in this order.
#[derive(Clone, Copy, Debug, PartialEq, Eq, Structural)]
pub enum UiAction {
    /// Make the first window a child of the second one. Zero stands for no window.
    SetParent { window: isize, parent: isize },
    Show { window: isize },
    /// Send a message to the plugin.
    Send(HostMessage),
}

/// The editor.
#[derive(Clone, Copy, Debug, PartialEq, Eq, Structural)]
pub struct App {
    pub value: i32,
    /// The editor's own window, once there is one.
    pub hwnd: Option<isize>,
}

/// The window handle as a number, zero where there is none.
pub open spec fn handle_number(handle: Option<isize>) -> isize {
    match handle {
        Some(handle) => handle,
        None => 0,
    }
}

impl App {
    /// Whether the count has room for what the message asks.
    pub open spec fn can_update(self, message: Message) -> bool {
        &&& message == Message::IncrementPressed ==> self.value < i32::MAX
        &&& message == Message::DecrementPressed ==> self.value > i32::MIN
    }

    /// The editor after a message.
    pub open spec fn updated(self, message: Message) -> App {
        match message {
            Message::IncrementPressed => App { value: (self.value + 1) as i32, ..self },
            Message::DecrementPressed => App { value: (self.value - 1) as i32, ..self },
            _ => self,
        }
    }

    /// An editor that has no window yet and counts from zero.
    pub fn new() -> (app: App)
        ensures
            app == (App { value: 0, hwnd: None }),
    {
        App { value: 0, hwnd: None }
    }

    /// The title of the editor's window.
    pub fn title(&self) -> (title: String)
        ensures
            title@ == "test Counter - Iced"@,
    {
        String::from_str("test Counter - Iced")
    }

    /// Takes note of the editor's own window.
    pub fn hwnd(&mut self, hwnd: isize)
        ensures
            *final(self) == (App { hwnd: Some(hwnd), ..*old(self) }),
    {
        self.hwnd = Some(hwnd);
    }

    /// Handles a message.
    pub fn update(&mut self, message: Message) -> (actions: Vec<UiAction>)
        requires
            old(self).can_update(message),
        ensures
            *final(self) == old(self).updated(message),
            actions@ == (match message {
                Message::HostMessage(UIMessage::ShowEditor(parent)) => seq![
                    UiAction::SetParent {
                        window: handle_number(old(self).hwnd),
                        parent: handle_number(parent),
                    },
                    UiAction::Show { window: handle_number(old(self).hwnd) },
                    UiAction::Send(HostMessage::SetEditorHandle(old(self).hwnd)),
                ],
                _ => seq![],
            }),
    {
        let mut actions: Vec<UiAction> = Vec::new();
        match message {
            Message::Nothing => {},
            Message::IncrementPressed => {
                self.value = self.value + 1;
            },
            Message::DecrementPressed => {
                self.value = self.value - 1;
            },
            Message::HostMessage(UIMessage::ShowEditor(parent)) => {
                let window: isize = self.hwnd.unwrap_or(0);
                actions.push(UiAction::SetParent { window, parent: parent.unwrap_or(0) });
                actions.push(UiAction::Show { window });
                actions.push(UiAction::Send(HostMessage::SetEditorHandle(self.hwnd)));
            },
        }
        actions
    }

    /// What the editor shows: the count, between two buttons.
    pub fn view(&self) -> (lines: (String, String, String))
        ensures
            lines.0@ == "Increment"@,
            lines.1@ == text::signed_decimal(self.value as int),
            lines.2@ == "Decrement"@,
    {
        (
            String::from_str("Increment"),
            text::signed_decimal_text(self.value),
            String::from_str("Decrement"),
        )
    }
}

/// Pressing one button undoes a press of the other.
pub proof fn buttons_undo_each_other(app: App)
    ensures
        app.can_update(Message::IncrementPressed) ==> app.updated(
            Message::IncrementPressed,
        ).can_update(Message::DecrementPressed) && app.updated(Message::IncrementPressed).updated(
            Message::DecrementPressed,
        ) == app,
        app.can_update(Message::DecrementPressed) ==> app.updated(
            Message::DecrementPressed,
        ).can_update(Message::IncrementPressed) && app.updated(Message::DecrementPressed).updated(
            Message::IncrementPressed,
        ) == app,
{
}

/// The buttons count by one, and no message changes anything else.
pub proof fn buttons_count_by_one(app: App, message: Message)
    requires
        app.can_update(message),
    ensures
        app.updated(message).value == app.value + (if message == Message::IncrementPressed {
            1int
        } else if message == Message::DecrementPressed {
            -1
        } else {
            0
        }),
        app.updated(message).hwnd == app.hwnd,
{
}

/// Only a count that is at the end of its range cannot go on.
pub proof fn counting_ends_with_the_range(app: App, message: Message)
    ensures
        app.can_update(message) <==> !(message == Message::IncrementPressed && app.value
            == 0x7fff_ffff) && !(message == Message::DecrementPressed && app.value
            == -0x8000_0000),
        handle_number(None) == 0,
        forall|handle: isize| #[trigger] handle_number(Some(handle)) == handle,
{
}

} // verus!
