//! The desktop, as the actions of a host change it.

use vstd::prelude::*;

use crate::cookies::ImportedCookieView;
use crate::event::StreamEventView;
use crate::flow::StepView;
use crate::host::{ActionView, Position, ScriptView, Size, Window};

verus! {

/// Where a window lies.
pub enum Place {
    At(Position),
    /// In the middle of its monitor.
    Centred,
}

/// A window and its page.
#[verifier::ext_equal]
pub struct Pane {
    pub visible: bool,
    pub place: Place,
    pub size: Size,
    /// The address that the window was led to last.
    pub address: Seq<char>,
    /// The scripts that were run in the page, the last of them at the end.
    pub scripts: Seq<ScriptView>,
}

/// A task in the background, with the number of the request that it belongs to.
pub enum Task {
    Hide(u64),
    Reveal(u64),
}

/// The two windows, and what the host has done besides.
#[verifier::ext_equal]
pub struct Desk {
    pub main: Pane,
    pub chat: Pane,
    /// The window that has the focus.
    pub focus: Window,
    /// The events that the main window has heard of.
    pub events: Seq<StreamEventView>,
    /// The lists of cookies that the web view was handed to write.
    pub written: Seq<Seq<ImportedCookieView>>,
    /// How often the web view was told to read its cookies.
    pub reads: nat,
    /// The tasks that were started in the background.
    pub tasks: Seq<Task>,
}

impl Desk {
    /// One of the windows.
    pub open spec fn pane(self, window: Window) -> Pane {
        match window {
            Window::Main => self.main,
            Window::Chat => self.chat,
        }
    }

    /// The desktop with another state of one of the windows.
    pub open spec fn with(self, window: Window, pane: Pane) -> Desk {
        match window {
            Window::Main => Desk { main: pane, ..self },
            Window::Chat => Desk { chat: pane, ..self },
        }
    }

    /// The desktop after an action. A window that is not visible does not take the focus.
    pub open spec fn did(self, action: ActionView) -> Desk {
        match action {
            ActionView::Find(_) => self,
            ActionView::Show(window) => self.with(
                window,
                Pane { visible: true, ..self.pane(window) },
            ),
            ActionView::Hide(window) => self.with(
                window,
                Pane { visible: false, ..self.pane(window) },
            ),
            ActionView::Focus(window) => if self.pane(window).visible {
                Desk { focus: window, ..self }
            } else {
                self
            },
            ActionView::Center(window) => self.with(
                window,
                Pane { place: Place::Centred, ..self.pane(window) },
            ),
            ActionView::Resize(window, size) => self.with(
                window,
                Pane { size, ..self.pane(window) },
            ),
            ActionView::Move(window, position) => self.with(
                window,
                Pane { place: Place::At(position), ..self.pane(window) },
            ),
            ActionView::Run(window, script) => self.with(
                window,
                Pane { scripts: self.pane(window).scripts.push(script), ..self.pane(window) },
            ),
            ActionView::Navigate(window, address) => self.with(
                window,
                Pane { address, ..self.pane(window) },
            ),
            ActionView::Emit(event) => Desk { events: self.events.push(event), ..self },
            ActionView::CurrentMonitor => self,
            ActionView::PrimaryMonitor => self,
            ActionView::WriteCookies(list) => Desk { written: self.written.push(list), ..self },
            ActionView::ReadCookies => Desk { reads: self.reads + 1, ..self },
            ActionView::HideLater(epoch) => Desk { tasks: self.tasks.push(Task::Hide(epoch)), ..self },
            ActionView::RevealLater(epoch) => Desk {
                tasks: self.tasks.push(Task::Reveal(epoch)),
                ..self
            },
        }
    }

    /// The desktop once `steps` have all been performed.
    pub open spec fn performed(self, steps: Seq<StepView<ActionView>>) -> Desk
        decreases steps.len(),
    {
        if steps.len() == 0 {
            self
        } else {
            self.did(steps[0].action).performed(steps.drop_first())
        }
    }

    /// The desktop once one more script was run in the chat window.
    pub open spec fn ran(self, script: ScriptView) -> Desk {
        Desk { chat: Pane { scripts: self.chat.scripts.push(script), ..self.chat }, ..self }
    }
}

} // verus!
