//! The split view: Flight and the web page side by side.

use vstd::prelude::*;

use crate::address::NO_CHAT_WINDOW;
use crate::flow;
use crate::flow::{Flow, FlowView, Reply, Step, StepView};
use crate::host;
use crate::host::{Action, ActionView, Monitor, Position, Size, Window};

verus! {

/// What is told where the main window does not exist.
pub const NO_MAIN_WINDOW: &'static str = "未找到 Flight 主窗口";

/// What is told where there is no monitor to arrange the windows on.
pub const NO_MONITOR: &'static str = "未找到可用显示器";

/// The least width of a window in the split view.
pub const LEAST_WIDTH: u32 = 520;

/// The least height of a window in the split view.
pub const LEAST_HEIGHT: u32 = 620;

/// What is left free at the foot of the monitor.
pub const FOOT: u32 = 36;

/// The size of the main window outside the split view.
pub open spec fn usual_size() -> Size {
    Size { width: 1240, height: 840 }
}

/// The larger of two numbers.
pub open spec fn at_least(least: int, n: int) -> int {
    if n < least {
        least
    } else {
        n
    }
}

/// The width of the main window: half the monitor, or the least width.
pub open spec fn left_width(monitor: Monitor) -> int {
    at_least(LEAST_WIDTH as int, monitor.size.width as int / 2)
}

/// The width of the chat window: what the main window leaves, or the least width.
pub open spec fn right_width(monitor: Monitor) -> int {
    at_least(LEAST_WIDTH as int, monitor.size.width - left_width(monitor))
}

/// The height of both windows: all but the foot of the monitor, or the least height.
pub open spec fn split_height(monitor: Monitor) -> int {
    at_least(LEAST_HEIGHT as int, monitor.size.height - FOOT)
}

/// Whether the place of the chat window can be written as a position.
pub open spec fn has_room(monitor: Monitor) -> bool {
    monitor.position.x + left_width(monitor) <= i32::MAX
}

/// Where the two windows lie in the split view.
#[derive(Clone, Copy, Debug, PartialEq, Eq, Structural)]
pub struct Layout {
    pub main_position: Position,
    pub main_size: Size,
    pub chat_position: Position,
    pub chat_size: Size,
}

/// The layout on `monitor`: the main window at its upper left corner, the chat window to the
/// right of it.
pub open spec fn layout_on(monitor: Monitor) -> Layout {
    Layout {
        main_position: monitor.position,
        main_size: Size {
            width: left_width(monitor) as u32,
            height: split_height(monitor) as u32,
        },
        chat_position: Position {
            x: (monitor.position.x + left_width(monitor)) as i32,
            y: monitor.position.y,
        },
        chat_size: Size {
            width: right_width(monitor) as u32,
            height: split_height(monitor) as u32,
        },
    }
}

fn half_or_least(width: u32) -> (left: u32)
    ensures
        left == at_least(LEAST_WIDTH as int, width as int / 2),
        left <= i32::MAX,
{
    if width / 2 < LEAST_WIDTH {
        LEAST_WIDTH
    } else {
        width / 2
    }
}

/// What `part` leaves of `whole`, but no less than `least`.
fn rest_or_least(whole: u32, part: u32, least: u32) -> (rest: u32)
    ensures
        rest == at_least(least as int, whole - part),
{
    if whole < part || whole - part < least {
        least
    } else {
        whole - part
    }
}

/// Whether the place of the chat window can be written as a position.
pub fn fits(monitor: &Monitor) -> (yes: bool)
    ensures
        yes == has_room(*monitor),
{
    let left: u32 = half_or_least(monitor.size.width);
    monitor.position.x <= i32::MAX - left as i32
}

/// The layout on `monitor`.
pub fn layout(monitor: &Monitor) -> (layout: Layout)
    requires
        has_room(*monitor),
    ensures
        layout == layout_on(*monitor),
{
    let left: u32 = half_or_least(monitor.size.width);
    let right: u32 = rest_or_least(monitor.size.width, left, LEAST_WIDTH);
    let height: u32 = rest_or_least(monitor.size.height, FOOT, LEAST_HEIGHT);
    Layout {
        main_position: monitor.position,
        main_size: Size { width: left, height },
        chat_position: Position { x: monitor.position.x + left as i32, y: monitor.position.y },
        chat_size: Size { width: right, height },
    }
}

/// The steps that look the two windows up.
pub open spec fn lookup_steps() -> Seq<StepView<ActionView>> {
    seq![
        host::find_step(Window::Main, NO_MAIN_WINDOW@),
        host::find_step(Window::Chat, NO_CHAT_WINDOW@),
    ]
}

/// The flow that closes the split view. The main window comes back first; the chat window
/// is hidden in the background.
pub open spec fn closing_flow(epoch: u64) -> FlowView<ActionView> {
    FlowView {
        pending: lookup_steps() + seq![
            host::plain_step(ActionView::Show(Window::Main)),
            host::plain_step(ActionView::Resize(Window::Main, usual_size())),
            host::plain_step(ActionView::Center(Window::Main)),
            host::plain_step(ActionView::Focus(Window::Main)),
            host::plain_step(ActionView::HideLater(epoch)),
        ],
        verdict: Ok(Reply::Done),
    }
}

/// The flow that opens the split view, up to the choice of a monitor.
pub open spec fn opening_flow() -> FlowView<ActionView> {
    FlowView {
        pending: lookup_steps() + seq![
            host::plain_step(ActionView::CurrentMonitor),
            host::plain_step(ActionView::PrimaryMonitor),
        ],
        verdict: Err(NO_MONITOR@),
    }
}

/// The flow that arranges the windows in a layout.
pub open spec fn arranging_flow(layout: Layout, epoch: u64) -> FlowView<ActionView> {
    FlowView {
        pending: seq![
            host::plain_step(ActionView::Show(Window::Main)),
            host::plain_step(ActionView::Move(Window::Main, layout.main_position)),
            host::plain_step(ActionView::Resize(Window::Main, layout.main_size)),
            host::plain_step(ActionView::Show(Window::Chat)),
            host::plain_step(ActionView::Move(Window::Chat, layout.chat_position)),
            host::plain_step(ActionView::Resize(Window::Chat, layout.chat_size)),
            host::plain_step(ActionView::Focus(Window::Main)),
            host::plain_step(ActionView::RevealLater(epoch)),
        ],
        verdict: Ok(Reply::Done),
    }
}

fn arrange(layout: &Layout, epoch: u64) -> (flow: Flow<Action>)
    ensures
        flow@ == arranging_flow(*layout, epoch),
{
    let steps = vec![
        host::plain(Action::Show(Window::Main)),
        host::plain(Action::Move(Window::Main, layout.main_position)),
        host::plain(Action::Resize(Window::Main, layout.main_size)),
        host::plain(Action::Show(Window::Chat)),
        host::plain(Action::Move(Window::Chat, layout.chat_position)),
        host::plain(Action::Resize(Window::Chat, layout.chat_size)),
        host::plain(Action::Focus(Window::Main)),
        host::plain(Action::RevealLater(epoch)),
    ];
    assert(flow::steps_view(steps@) =~= arranging_flow(*layout, epoch).pending);
    Flow::new(steps, Ok(Reply::Done))
}

/// A request to open or close the split view, under way.
#[derive(Debug)]
pub struct SplitView {
    flow: Flow<Action>,
    chosen: Option<Monitor>,
    epoch: u64,
}

/// What a `SplitView` stands for.
#[verifier::ext_equal]
pub struct SplitViewState {
    pub flow: FlowView<ActionView>,
    /// The monitor to arrange the windows on, as far as it is known.
    pub chosen: Option<Monitor>,
    /// The number of the request.
    pub epoch: u64,
}

impl View for SplitView {
    type V = SplitViewState;

    closed spec fn view(&self) -> SplitViewState {
        SplitViewState { flow: self.flow@, chosen: self.chosen, epoch: self.epoch }
    }
}

impl SplitViewState {
    /// The request once it has been made.
    pub open spec fn requested(enabled: bool, epoch: u64) -> Self {
        SplitViewState {
            flow: if enabled {
                opening_flow()
            } else {
                closing_flow(epoch)
            },
            chosen: None,
            epoch,
        }
    }

    /// The request once the host has reported the outcome of the pending action.
    pub open spec fn after(self, outcome: Result<(), Seq<char>>) -> Self {
        SplitViewState { flow: self.flow.after(outcome), ..self }
    }

    /// Whether the pending action is to ask for the primary monitor, the last question.
    pub open spec fn asks_last(self) -> bool {
        self.flow.pending.len() > 0 && self.flow.pending[0].action == ActionView::PrimaryMonitor
    }

    /// The monitor chosen once `found` was found besides: what was found first stays.
    pub open spec fn choice(self, found: Option<Monitor>) -> Option<Monitor> {
        if self.chosen is Some {
            self.chosen
        } else {
            found
        }
    }

    /// The request once the host has answered a question for a monitor. After the last
    /// question the windows are arranged on the monitor chosen, if there is one.
    pub open spec fn after_monitor(self, found: Option<Monitor>) -> Self {
        let chosen = self.choice(found);
        SplitViewState {
            flow: if self.asks_last() && chosen is Some {
                arranging_flow(layout_on(chosen->0), self.epoch)
            } else {
                self.flow.after(Ok(()))
            },
            chosen,
            epoch: self.epoch,
        }
    }
}

/// A request to open (`enabled`) or close the split view. Its number is `epoch`.
pub fn set_split_view(enabled: bool, epoch: u64) -> (request: SplitView)
    ensures
        request@ == SplitViewState::requested(enabled, epoch),
{
    let flow = if enabled {
        let steps = vec![
            host::find(Window::Main, NO_MAIN_WINDOW),
            host::find(Window::Chat, NO_CHAT_WINDOW),
            host::plain(Action::CurrentMonitor),
            host::plain(Action::PrimaryMonitor),
        ];
        assert(flow::steps_view(steps@) =~= opening_flow().pending);
        Flow::new(steps, Err(NO_MONITOR.to_string()))
    } else {
        let steps = vec![
            host::find(Window::Main, NO_MAIN_WINDOW),
            host::find(Window::Chat, NO_CHAT_WINDOW),
            host::plain(Action::Show(Window::Main)),
            host::plain(Action::Resize(Window::Main, Size { width: 1240, height: 840 })),
            host::plain(Action::Center(Window::Main)),
            host::plain(Action::Focus(Window::Main)),
            host::plain(Action::HideLater(epoch)),
        ];
        assert(flow::steps_view(steps@) =~= closing_flow(epoch).pending);
        Flow::new(steps, Ok(Reply::Done))
    };
    SplitView { flow, chosen: None, epoch }
}

impl SplitView {
    /// The action to perform next; none where the request has ended.
    pub fn action(&self) -> (action: Option<&Action>)
        ensures
            action is Some <==> self@.flow.pending.len() > 0,
            action matches Some(action) ==> action@ == self@.flow.pending[0].action,
    {
        self.flow.action()
    }

    /// The answer to the request; none where actions are pending.
    pub fn answer(&self) -> (answer: Option<Result<Reply, String>>)
        ensures
            answer is Some <==> self@.flow.pending.len() == 0,
            answer matches Some(verdict) ==> flow::verdict_view(verdict) == self@.flow.verdict,
    {
        self.flow.answer()
    }

    /// Takes note of the outcome of the action performed last.
    pub fn report(&mut self, outcome: Result<(), String>)
        ensures
            final(self)@ == old(self)@.after(flow::outcome_view(outcome)),
    {
        self.flow.report(outcome);
    }

    /// The monitor on which the windows will be arranged if `found` is the answer to the
    /// pending question; none where nothing is arranged yet.
    pub fn arranges_on(&self, found: Option<Monitor>) -> (monitor: Option<Monitor>)
        ensures
            monitor == if self@.asks_last() {
                self@.choice(found)
            } else {
                None
            },
    {
        let last = match self.flow.action() {
            Some(Action::PrimaryMonitor) => true,
            _ => false,
        };
        if !last {
            None
        } else if self.chosen.is_some() {
            self.chosen
        } else {
            found
        }
    }

    /// Takes the answer to a question for a monitor.
    pub fn report_monitor(&mut self, found: Option<Monitor>)
        requires
            old(self)@.asks_last() && old(self)@.choice(found) is Some ==> has_room(
                old(self)@.choice(found)->0,
            ),
        ensures
            final(self)@ == old(self)@.after_monitor(found),
    {
        match self.arranges_on(found) {
            Some(monitor) => {
                self.flow = arrange(&layout(&monitor), self.epoch);
            },
            None => {
                self.flow.report(Ok(()));
            },
        }
        if self.chosen.is_none() {
            self.chosen = found;
        }
    }
}

/// The number of the request after the one numbered `previous`.
pub fn next_epoch(previous: u64) -> (epoch: u64)
    requires
        previous < u64::MAX,
    ensures
        epoch == previous + 1,
{
    previous + 1
}

/// Whether the request numbered `epoch` is the latest.
pub fn is_latest(epoch: u64, latest: u64) -> (yes: bool)
    ensures
        yes == (epoch == latest),
{
    epoch == latest
}

/// How long to wait before each time the chat window is shown again, in milliseconds.
pub open spec fn reveal_delays() -> Seq<u64> {
    seq![150, 600, 1200]
}

/// The background task that shows the chat window again after the split view was opened.
#[derive(Clone, Copy, Debug)]
pub struct Reveal {
    epoch: u64,
    round: usize,
}

/// What a `Reveal` stands for.
#[verifier::ext_equal]
pub struct RevealView {
    /// The number of the request that the task belongs to.
    pub epoch: u64,
    /// How many waits are over; all of them where the task has ended.
    pub round: int,
}

impl View for Reveal {
    type V = RevealView;

    closed spec fn view(&self) -> RevealView {
        RevealView { epoch: self.epoch, round: self.round as int }
    }
}

impl RevealView {
    /// Whether there is a wait to come.
    pub open spec fn is_waiting(self) -> bool {
        0 <= self.round < reveal_delays().len()
    }

    /// Whether the window is shown after a wait that ends while `latest` is the number of
    /// the latest request.
    pub open spec fn shows(self, latest: u64) -> bool {
        self.is_waiting() && self.epoch == latest
    }

    /// The task after a wait that ends while `latest` is the number of the latest request:
    /// a task whose request is not the latest any more ends.
    pub open spec fn woken(self, latest: u64) -> Self {
        RevealView {
            epoch: self.epoch,
            round: if self.shows(latest) {
                self.round + 1
            } else {
                reveal_delays().len() as int
            },
        }
    }

    /// The task after waits that end while `latest` holds the number of the latest request,
    /// one after the other.
    pub open spec fn woken_by(self, latest: Seq<u64>) -> Self
        decreases latest.len(),
    {
        if latest.len() == 0 {
            self
        } else {
            self.woken(latest[0]).woken_by(latest.drop_first())
        }
    }
}

impl Reveal {
    #[verifier::type_invariant]
    spec fn in_range(&self) -> bool {
        self.round <= 3
    }

    /// The task for the request numbered `epoch`.
    pub fn new(epoch: u64) -> (task: Reveal)
        ensures
            task@ == (RevealView { epoch, round: 0 }),
    {
        Reveal { epoch, round: 0 }
    }

    /// How long to wait next, in milliseconds; none where the task has ended.
    pub fn delay(&self) -> (delay: Option<u64>)
        ensures
            delay == if self@.is_waiting() {
                Some(reveal_delays()[self@.round])
            } else {
                None
            },
    {
        proof {
            use_type_invariant(self);
        }
        match self.round {
            0 => Some(150),
            1 => Some(600),
            2 => Some(1200),
            _ => None,
        }
    }

    /// Ends a wait; the answer is whether to show the window.
    pub fn wake(&mut self, latest: u64) -> (show: bool)
        ensures
            show == old(self)@.shows(latest),
            final(self)@ == old(self)@.woken(latest),
    {
        proof {
            use_type_invariant(&*self);
        }
        if self.round < 3 && is_latest(self.epoch, latest) {
            self.round = self.round + 1;
            true
        } else {
            self.round = 3;
            false
        }
    }
}

/// In the split view the chat window begins where the main window ends, both are equally
/// high, and neither is smaller than the least size.
pub proof fn windows_lie_side_by_side(monitor: Monitor)
    requires
        has_room(monitor),
    ensures
        ({
            let layout = layout_on(monitor);
            &&& layout.main_position == monitor.position
            &&& layout.chat_position.x == layout.main_position.x + layout.main_size.width
            &&& layout.chat_position.y == layout.main_position.y
            &&& layout.chat_size.height == layout.main_size.height
            &&& layout.main_size.width >= LEAST_WIDTH
            &&& layout.chat_size.width >= LEAST_WIDTH
            &&& layout.main_size.height >= LEAST_HEIGHT
        }),
{
}

/// On a monitor that is wide and high enough for both windows they fill it but for its foot,
/// and share its width evenly, the odd pixel going to the chat window.
pub proof fn windows_fill_the_monitor(monitor: Monitor)
    requires
        has_room(monitor),
        monitor.size.width >= 2 * LEAST_WIDTH,
        monitor.size.height >= LEAST_HEIGHT + FOOT,
    ensures
        ({
            let layout = layout_on(monitor);
            &&& layout.main_size.width + layout.chat_size.width == monitor.size.width
            &&& layout.chat_size.width - layout.main_size.width == monitor.size.width % 2
            &&& layout.main_size.height + FOOT == monitor.size.height
        }),
{
}

/// Closing the split view does nothing to the chat window but have it hidden in the
/// background, and that only after the main window is back.
pub proof fn closing_restores_the_main_window_first(epoch: u64, i: int)
    requires
        lookup_steps().len() <= i < closing_flow(epoch).pending.len(),
    ensures
        closing_flow(epoch).pending[i].action == ActionView::HideLater(epoch)
            <==> i == closing_flow(epoch).pending.len() - 1,
        i < closing_flow(epoch).pending.len() - 1 ==> ({
            ||| closing_flow(epoch).pending[i].action == ActionView::Show(Window::Main)
            ||| closing_flow(epoch).pending[i].action == ActionView::Resize(
                Window::Main,
                usual_size(),
            )
            ||| closing_flow(epoch).pending[i].action == ActionView::Center(Window::Main)
            ||| closing_flow(epoch).pending[i].action == ActionView::Focus(Window::Main)
        }),
{
}

/// A request to open the split view that finds no monitor ends with the error for that.
pub proof fn opening_needs_a_monitor(epoch: u64)
    ensures
        ({
            let asked = SplitViewState::requested(true, epoch).after(Ok(())).after(Ok(()));
            let ended = asked.after_monitor(None).after_monitor(None);
            &&& ended.flow.pending.len() == 0
            &&& ended.flow.verdict == Err::<Reply, Seq<char>>(NO_MONITOR@)
        }),
{
}

/// The windows are arranged on the monitor that the main window is on, or on the primary
/// monitor where it is on none.
pub proof fn current_monitor_comes_first(
    epoch: u64,
    current: Option<Monitor>,
    primary: Option<Monitor>,
)
    requires
        current is Some || primary is Some,
    ensures
        ({
            let asked = SplitViewState::requested(true, epoch).after(Ok(())).after(Ok(()));
            let monitor = if current is Some {
                current->0
            } else {
                primary->0
            };
            asked.after_monitor(current).after_monitor(primary).flow == arranging_flow(
                layout_on(monitor),
                epoch,
            )
        }),
{
}

/// Of two requests only the latest has its background task act.
pub proof fn only_the_latest_acts(one: RevealView, other: RevealView, latest: u64)
    requires
        one.shows(latest),
        other.shows(latest),
    ensures
        one.epoch == other.epoch,
{
}

/// A task that has ended, or whose request was not the latest once, never shows the window
/// again.
pub proof fn superseded_task_stays_silent(task: RevealView, latest: Seq<u64>, wait: int)
    requires
        0 <= wait < latest.len(),
        !task.woken_by(latest.take(wait)).shows(latest[wait]),
    ensures
        forall|later: int|
            wait <= later < latest.len() ==> !(#[trigger] task.woken_by(latest.take(later))).shows(
                latest[later],
            ),
{
    assert forall|later: int| wait <= later < latest.len() implies !(#[trigger] task.woken_by(
        latest.take(later),
    )).shows(latest[later]) by {
        silent_from(task, latest, wait, later);
    }
}

proof fn woken_by_one_more(task: RevealView, latest: Seq<u64>, n: int)
    requires
        0 <= n < latest.len(),
    ensures
        task.woken_by(latest.take(n + 1)) == task.woken_by(latest.take(n)).woken(latest[n]),
    decreases n,
{
    let more = latest.take(n + 1);
    if n == 0 {
        assert(more.drop_first() =~= latest.take(0));
        assert(task.woken(latest[0]).woken_by(latest.take(0)) == task.woken(latest[0]));
    } else {
        let rest = latest.drop_first();
        assert(more.drop_first() =~= rest.take(n));
        assert(latest.take(n).drop_first() =~= rest.take(n - 1));
        woken_by_one_more(task.woken(latest[0]), rest, n - 1);
    }
}

proof fn silent_from(task: RevealView, latest: Seq<u64>, wait: int, later: int)
    requires
        0 <= wait <= later < latest.len(),
        !task.woken_by(latest.take(wait)).shows(latest[wait]),
    ensures
        !task.woken_by(latest.take(later)).shows(latest[later]),
        later > wait ==> !task.woken_by(latest.take(later)).is_waiting(),
    decreases later,
{
    if later > wait {
        silent_from(task, latest, wait, later - 1);
        woken_by_one_more(task, latest, later - 1);
    }
}

/// Once the split view is arranged both windows are visible.
pub proof fn split_view_shows_both(layout: Layout, epoch: u64, main: bool, page: bool)
    ensures
        host::visible_after(Window::Main, main, arranging_flow(layout, epoch).pending),
        host::visible_after(Window::Chat, page, arranging_flow(layout, epoch).pending),
{
    reveal_with_fuel(host::visible_after, 9);
}

/// Once the request to close the split view is answered the main window is visible, and
/// the page is as it was.
pub proof fn closing_shows_the_main_window(epoch: u64, main: bool, page: bool)
    ensures
        host::visible_after(Window::Main, main, closing_flow(epoch).pending),
        host::visible_after(Window::Chat, page, closing_flow(epoch).pending) == page,
{
    reveal_with_fuel(host::visible_after, 8);
}

/// Once a later request has come, the background task of an earlier one never acts, however
/// many requests follow.
pub proof fn earlier_requests_are_superseded(task: RevealView, later: u64, latest: u64)
    requires
        task.epoch < later <= latest,
    ensures
        task.epoch != latest,
        !task.shows(latest),
{
}

} // verus!
