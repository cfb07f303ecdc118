//! The addresses of the web page.

use vstd::prelude::*;

use crate::flow;
use crate::flow::{Flow, FlowView, Reply, Step};
use crate::host;
use crate::host::{Action, ActionView, Window};

verus! {

/// The address of the site.
pub const SITE: &'static str = "https://chatgpt.com/";

/// What is told where the chat window does not exist.
pub const NO_CHAT_WINDOW: &'static str = "网页登录窗口尚未创建";

/// Whether `c` is an ASCII letter, an ASCII digit or a hyphen.
pub open spec fn is_id_char(c: char) -> bool {
    ||| '0' <= c <= '9'
    ||| 'A' <= c <= 'Z'
    ||| 'a' <= c <= 'z'
    ||| c == '-'
}

/// Whether `address` lies on the site, with a path of ASCII letters, ASCII digits, hyphens
/// and slashes only.
pub open spec fn is_plain_address(address: Seq<char>) -> bool {
    &&& SITE@.is_prefix_of(address)
    &&& forall|i: int|
        SITE@.len() <= i < address.len() ==> is_id_char(#[trigger] address[i]) || address[i] == '/'
}

/// What `url::Url::parse` makes of a text: the address in its normal form, or the error in
/// its own words.
pub uninterp spec fn parsed_address(text: Seq<char>) -> Result<Seq<char>, Seq<char>>;

/// What a parsed address stands for.
pub open spec fn parsed_view(parsed: Result<String, String>) -> Result<Seq<char>, Seq<char>> {
    match parsed {
        Ok(address) => Ok(address@),
        Err(words) => Err(words@),
    }
}

/// Calls `url::Url::parse`. Its result is believed to depend on the text alone. Of an address
/// on the site whose path holds nothing but ASCII letters, ASCII digits, hyphens and slashes
/// it is believed besides to be the address itself: the scheme and the host are in normal
/// form already, and such a path has no dot segment and nothing to encode.
#[verifier::external_body]
fn parse_address(text: &str) -> (parsed: Result<String, String>)
    ensures
        parsed_view(parsed) == parsed_address(text@),
        is_plain_address(text@) ==> parsed is Ok && parsed->Ok_0@ == text@,
{
    url::Url::parse(text).map(|address| address.to_string()).map_err(|error| error.to_string())
}

/// `before`, and then the way to an address that was parsed: the window is led there and
/// the answer is `reply`, or the parser's words are the answer where it took the text for
/// no address.
pub open spec fn arrival(
    before: Seq<flow::StepView<ActionView>>,
    parsed: Result<Seq<char>, Seq<char>>,
    reply: Reply,
) -> FlowView<ActionView> {
    match parsed {
        Ok(address) => FlowView {
            pending: before.push(host::plain_step(ActionView::Navigate(Window::Chat, address))),
            verdict: Ok(reply),
        },
        Err(words) => FlowView { pending: before, verdict: Err(words) },
    }
}

/// The flow that performs `before` and then leads the chat window to an address that was
/// parsed.
pub fn arrive(
    before: Vec<Step<Action>>,
    parsed: Result<String, String>,
    reply: Reply,
) -> (flow: Flow<Action>)
    ensures
        flow@ == arrival(flow::steps_view(before@), parsed_view(parsed), reply),
{
    match parsed {
        Ok(address) => {
            let mut steps = before;
            let step = host::plain(Action::Navigate(Window::Chat, address));
            steps.push(step);
            assert(flow::steps_view(steps@) =~= flow::steps_view(before@).push(step@));
            Flow::new(steps, Ok(reply))
        },
        Err(words) => Flow::new(before, Err(words)),
    }
}

/// The flow that performs `before` and then leads the chat window to `address`.
pub fn open_after(before: Vec<Step<Action>>, address: &str, reply: Reply) -> (flow: Flow<Action>)
    ensures
        flow@ == arrival(flow::steps_view(before@), parsed_address(address@), reply),
        is_plain_address(address@) ==> flow@ == arrival(
            flow::steps_view(before@),
            Ok(address@),
            reply,
        ),
{
    let parsed = parse_address(address);
    arrive(before, parsed, reply)
}

/// The flow that leads the chat window to `address`.
pub fn open_page(address: &str) -> (flow: Flow<Action>)
    ensures
        flow@ == arrival(
            seq![host::find_step(Window::Chat, NO_CHAT_WINDOW@)],
            parsed_address(address@),
            Reply::Done,
        ),
        is_plain_address(address@) ==> flow@ == arrival(
            seq![host::find_step(Window::Chat, NO_CHAT_WINDOW@)],
            Ok(address@),
            Reply::Done,
        ),
{
    let steps = vec![host::find(Window::Chat, NO_CHAT_WINDOW)];
    assert(flow::steps_view(steps@) =~= seq![host::find_step(Window::Chat, NO_CHAT_WINDOW@)]);
    open_after(steps, address, Reply::Done)
}

/// What was to be done before stays as it is. An address that was parsed is led to after it,
/// and the answer is the reply; the parser's words are the answer where there is none.
pub proof fn parsed_address_is_led_to(
    before: Seq<flow::StepView<ActionView>>,
    address: Seq<char>,
    words: Seq<char>,
    reply: Reply,
)
    ensures
        ({
            let found = arrival(before, Ok(address), reply);
            let steps = found.pending;
            &&& steps.len() == before.len() + 1
            &&& steps.take(before.len() as int) == before
            &&& steps.last().action == ActionView::Navigate(Window::Chat, address)
            &&& steps.last().failure == flow::FailureView::Verbatim
            &&& found.verdict == Ok::<Reply, Seq<char>>(reply)
        }),
        arrival(before, Err(words), reply).pending == before,
        arrival(before, Err(words), reply).verdict == Err::<Reply, Seq<char>>(words),
{
    assert(arrival(before, Ok(address), reply).pending.take(before.len() as int) =~= before);
}

/// A plain address is that of the site and then letters, digits, hyphens and slashes.
pub proof fn plain_address_lies_on_the_site(address: Seq<char>)
    ensures
        is_plain_address(address) <==> address.len() >= 20 && address.take(20)
            == "https://chatgpt.com/"@ && forall|i: int|
            20 <= i < address.len() ==> ('a' <= #[trigger] address[i] <= 'z' || 'A' <= address[i]
                <= 'Z' || '0' <= address[i] <= '9' || address[i] == '-' || address[i] == '/'),
{
    reveal_strlit("https://chatgpt.com/");
    if address.len() >= 20 {
        assert(address.take(20) =~= address.subrange(0, 20));
    }
    if is_plain_address(address) {
        assert(forall|i: int|
            20 <= i < address.len() ==> is_id_char(#[trigger] address[i]) || address[i] == '/');
    }
}

/// A parsed address stands for its text, and an error for its words.
pub proof fn parsed_address_stands_for_its_text(parsed: Result<String, String>)
    ensures
        parsed is Ok ==> parsed_view(parsed) == Ok::<Seq<char>, Seq<char>>(parsed->Ok_0@),
        parsed is Err ==> parsed_view(parsed) == Err::<Seq<char>, Seq<char>>(parsed->Err_0@),
{
}

} // verus!
