//! What the commands ask of the host: its windows, its monitors and the page it shows.

use vstd::prelude::*;

use crate::cookies;
use crate::cookies::{ImportedCookie, ImportedCookieView};
use crate::event::{StreamEvent, StreamEventView};
use crate::flow::{Failure, FailureView, Step, StepView};

verus! {

/// The name of the channel on which the main window hears of events.
pub const STREAM_CHANNEL: &'static str = "flight://stream";

/// The two windows.
#[derive(Clone, Copy, Debug, PartialEq, Eq, Structural)]
pub enum Window {
    /// Flight itself.
    Main,
    /// The web page in which the user has signed in.
    Chat,
}

impl Window {
    /// The label under which the host knows the window.
    pub open spec fn spec_label(self) -> Seq<char> {
        match self {
            Window::Main => "main"@,
            Window::Chat => "chatgpt-session"@,
        }
    }

    /// The label under which the host knows the window.
    pub fn label(&self) -> (label: &'static str)
        ensures
            label@ == self.spec_label(),
    {
        match *self {
            Window::Main => "main",
            Window::Chat => "chatgpt-session",
        }
    }
}

/// A size in pixels.
#[derive(Clone, Copy, Debug, PartialEq, Eq, Structural)]
pub struct Size {
    pub width: u32,
    pub height: u32,
}

/// A place on the desktop, in pixels.
#[derive(Clone, Copy, Debug, PartialEq, Eq, Structural)]
pub struct Position {
    pub x: i32,
    pub y: i32,
}

/// A monitor: where its upper left corner lies, and its size.
#[derive(Clone, Copy, Debug, PartialEq, Eq, Structural)]
pub struct Monitor {
    pub position: Position,
    pub size: Size,
}

/// A script for the web page.
#[derive(Clone, Debug, PartialEq, Eq)]
pub enum Script {
    /// The script that installs the bridge between the page and Flight.
    Bridge,
    /// Any other script.
    Text(String),
}

/// What a `Script` stands for.
#[verifier::ext_equal]
pub enum ScriptView {
    Bridge,
    Text(Seq<char>),
}

impl View for Script {
    type V = ScriptView;

    open spec fn view(&self) -> ScriptView {
        match *self {
            Script::Bridge => ScriptView::Bridge,
            Script::Text(text) => ScriptView::Text(text@),
        }
    }
}

/// Something that the host does for a command.
#[derive(Clone, Debug, PartialEq, Eq)]
pub enum Action {
    /// Look the window up; it fails where there is no such window.
    Find(Window),
    Show(Window),
    Hide(Window),
    Focus(Window),
    Center(Window),
    Resize(Window, Size),
    Move(Window, Position),
    /// Run a script in the page of the window.
    Run(Window, Script),
    /// Lead the window to an address.
    Navigate(Window, String),
    /// Send an event to the main window.
    Emit(StreamEvent),
    /// Ask for the monitor that the main window is on.
    CurrentMonitor,
    /// Ask for the primary monitor.
    PrimaryMonitor,
    /// Have the chat window's web view write cookies. What becomes of the single calls is
    /// told by events, not by the outcome of this action.
    WriteCookies(Vec<ImportedCookie>),
    /// Have the chat window's web view read its cookies.
    ReadCookies,
    /// Hide the chat window in the background, unless a request has come since the one of
    /// the given number.
    HideLater(u64),
    /// Show the chat window again and again in the background, until a request has come
    /// since the one of the given number.
    RevealLater(u64),
}

/// What an `Action` stands for.
#[verifier::ext_equal]
pub enum ActionView {
    Find(Window),
    Show(Window),
    Hide(Window),
    Focus(Window),
    Center(Window),
    Resize(Window, Size),
    Move(Window, Position),
    Run(Window, ScriptView),
    Navigate(Window, Seq<char>),
    Emit(StreamEventView),
    CurrentMonitor,
    PrimaryMonitor,
    WriteCookies(Seq<ImportedCookieView>),
    ReadCookies,
    HideLater(u64),
    RevealLater(u64),
}

impl View for Action {
    type V = ActionView;

    open spec fn view(&self) -> ActionView {
        match *self {
            Action::Find(window) => ActionView::Find(window),
            Action::Show(window) => ActionView::Show(window),
            Action::Hide(window) => ActionView::Hide(window),
            Action::Focus(window) => ActionView::Focus(window),
            Action::Center(window) => ActionView::Center(window),
            Action::Resize(window, size) => ActionView::Resize(window, size),
            Action::Move(window, position) => ActionView::Move(window, position),
            Action::Run(window, script) => ActionView::Run(window, script@),
            Action::Navigate(window, address) => ActionView::Navigate(window, address@),
            Action::Emit(event) => ActionView::Emit(event@),
            Action::CurrentMonitor => ActionView::CurrentMonitor,
            Action::PrimaryMonitor => ActionView::PrimaryMonitor,
            Action::WriteCookies(list) => ActionView::WriteCookies(cookies::cookies_view(list@)),
            Action::ReadCookies => ActionView::ReadCookies,
            Action::HideLater(epoch) => ActionView::HideLater(epoch),
            Action::RevealLater(epoch) => ActionView::RevealLater(epoch),
        }
    }
}

/// The step that looks a window up and tells `text` where there is none.
pub open spec fn find_step(window: Window, text: Seq<char>) -> StepView<ActionView> {
    StepView { action: ActionView::Find(window), failure: FailureView::Replaced(text) }
}

/// The step of which the host's own words are told where it fails.
pub open spec fn plain_step(action: ActionView) -> StepView<ActionView> {
    StepView { action, failure: FailureView::Verbatim }
}

/// The step that installs the bridge, and tells `text` and the host's words where that fails.
pub open spec fn bridge_step(text: Seq<char>) -> StepView<ActionView> {
    StepView {
        action: ActionView::Run(Window::Chat, ScriptView::Bridge),
        failure: FailureView::Prefixed(text),
    }
}

/// The step that looks a window up and tells `text` where there is none.
pub fn find(window: Window, text: &'static str) -> (step: Step<Action>)
    ensures
        step@ == find_step(window, text@),
{
    Step { action: Action::Find(window), failure: Failure::Replaced(text) }
}

/// The step of which the host's own words are told where it fails.
pub fn plain(action: Action) -> (step: Step<Action>)
    ensures
        step@ == plain_step(action@),
{
    Step { action, failure: Failure::Verbatim }
}

/// The step that installs the bridge, and tells `text` and the host's words where that fails.
pub fn bridge(text: &'static str) -> (step: Step<Action>)
    ensures
        step@ == bridge_step(text@),
{
    Step { action: Action::Run(Window::Chat, Script::Bridge), failure: Failure::Prefixed(text) }
}

/// Whether a window is visible once `steps` have all been performed, where it was so before
/// or not.
pub open spec fn visible_after(
    window: Window,
    before: bool,
    steps: Seq<StepView<ActionView>>,
) -> bool
    decreases steps.len(),
{
    if steps.len() == 0 {
        before
    } else {
        let earlier = visible_after(window, before, steps.drop_last());
        match steps.last().action {
            ActionView::Show(shown) => shown == window || earlier,
            ActionView::Hide(hidden) => hidden != window && earlier,
            _ => earlier,
        }
    }
}

/// An action stands for itself: for the window, the place, the size, the script, the address,
/// the event, the cookies or the number that it holds.
pub proof fn action_stands_for_what_it_holds(action: Action)
    ensures
        match action {
            Action::Find(window) => action@ == ActionView::Find(window),
            Action::Show(window) => action@ == ActionView::Show(window),
            Action::Hide(window) => action@ == ActionView::Hide(window),
            Action::Focus(window) => action@ == ActionView::Focus(window),
            Action::Center(window) => action@ == ActionView::Center(window),
            Action::Resize(window, size) => action@ == ActionView::Resize(window, size),
            Action::Move(window, position) => action@ == ActionView::Move(window, position),
            Action::Run(window, Script::Bridge) => action@ == ActionView::Run(
                window,
                ScriptView::Bridge,
            ),
            Action::Run(window, Script::Text(text)) => action@ == ActionView::Run(
                window,
                ScriptView::Text(text@),
            ),
            Action::Navigate(window, address) => action@ == ActionView::Navigate(window, address@),
            Action::Emit(event) => action@ == ActionView::Emit(event@),
            Action::CurrentMonitor => action@ == ActionView::CurrentMonitor,
            Action::PrimaryMonitor => action@ == ActionView::PrimaryMonitor,
            Action::WriteCookies(list) => action@ is WriteCookies && action@->WriteCookies_0.len()
                == list@.len() && forall|i: int|
                0 <= i < list@.len() ==> #[trigger] action@->WriteCookies_0[i] == list@[i]@,
            Action::ReadCookies => action@ == ActionView::ReadCookies,
            Action::HideLater(epoch) => action@ == ActionView::HideLater(epoch),
            Action::RevealLater(epoch) => action@ == ActionView::RevealLater(epoch),
        },
{
}

} // verus!
