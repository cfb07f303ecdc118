//! The commands: what each of them checks, and what it then has the host do.

use vstd::prelude::*;

use crate::address;
use crate::address::NO_CHAT_WINDOW;
use crate::cookies;
use crate::cookies::ImportedCookie;
use crate::event::{StreamEvent, StreamEventView};
use crate::flow;
use crate::flow::{Failure, FailureView, Flow, FlowView, Reply, Step, StepView};
use crate::host;
use crate::host::{Action, ActionView, Script, ScriptView, Window};
use crate::json;
use crate::refusal::Refusal;
use crate::scripts;
use crate::scripts::{ImageAttachment, ImageView};
use crate::split::NO_MAIN_WINDOW;
use crate::text;

verus! {

/// How many messages are shown again where the user has set no number.
pub const USUAL_HISTORY: usize = 5;

/// The most messages that are shown again.
pub const MOST_HISTORY: usize = 100;

/// The most bytes that the name of a conversation takes.
pub const MOST_ID_BYTES: usize = 128;

/// The most characters of a message.
pub const MOST_MESSAGE: usize = 40_000;

/// The most characters of a command draft, and of the label of a command option.
pub const MOST_COMMAND: usize = 240;

/// The most bytes that the name of an image takes.
pub const MOST_IMAGE_NAME_BYTES: usize = 240;

/// The most bytes that the data URL of an image takes: room for ten megabytes of data.
pub const MOST_IMAGE_BYTES: usize = 14_680_064;

/// What is told where the chat window does not exist and the user has to sign in first.
pub const SIGN_IN_FIRST: &'static str = "请先打开网页登录窗口并完成登录";

/// What is told where the chat window does not exist and cookies are asked for.
pub const OPEN_PAGE_FIRST: &'static str = "请先打开网页登录窗口";

/// How it is told that the bridge could not be installed.
pub const NO_BRIDGE: &'static str = "无法初始化网页消息桥接：";

/// How it is told that the history could not be read.
pub const NO_HISTORY: &'static str = "无法读取当前会话历史：";

/// How it is told that the page's controls could not be brought back.
pub const NO_CONTROLS: &'static str = "无法恢复网页控制按钮：";

/// What is told where the platform's web view cannot write cookies.
pub const NO_IMPORT: &'static str = "当前平台暂不支持原生 Cookie 导入";

/// What is told where the platform's web view cannot read cookies.
pub const NO_EXPORT: &'static str = "当前平台暂不支持原生 Cookie 导出";

/// The kind of the event that tells the main window that Flight is active.
pub const FLIGHT_ACTIVE: &'static str = "flight_active";

/// The flow of a command that is turned down for a reason, or goes on as `accepted`.
pub open spec fn checked(
    refusal: Option<Refusal>,
    accepted: FlowView<ActionView>,
) -> FlowView<ActionView> {
    match refusal {
        Some(refusal) => FlowView::refused(refusal.spec_text()),
        None => accepted,
    }
}

/// The flow that runs one script in the chat window.
pub open spec fn script_flow(script: Seq<char>) -> FlowView<ActionView> {
    FlowView {
        pending: seq![
            host::find_step(Window::Chat, NO_CHAT_WINDOW@),
            host::plain_step(ActionView::Run(Window::Chat, ScriptView::Text(script))),
        ],
        verdict: Ok(Reply::Done),
    }
}

fn run_script(script: String) -> (flow: Flow<Action>)
    ensures
        flow@ == script_flow(script@),
{
    let steps = vec![
        host::find(Window::Chat, NO_CHAT_WINDOW),
        host::plain(Action::Run(Window::Chat, Script::Text(script))),
    ];
    assert(flow::steps_view(steps@) =~= script_flow(script@).pending);
    Flow::new(steps, Ok(Reply::Done))
}

/// The flow that imports cookies the web view can write: they are written, and the page is
/// loaded anew.
pub open spec fn import_flow(list: Seq<cookies::ImportedCookieView>) -> FlowView<ActionView> {
    FlowView {
        pending: seq![
            host::find_step(Window::Chat, OPEN_PAGE_FIRST@),
            host::plain_step(ActionView::WriteCookies(list)),
            host::plain_step(ActionView::Navigate(Window::Chat, address::SITE@)),
        ],
        verdict: Ok(Reply::Count(list.len() as usize)),
    }
}

/// The flow of a command that the platform does not support.
pub open spec fn unsupported_flow(text: Seq<char>) -> FlowView<ActionView> {
    FlowView {
        pending: seq![host::find_step(Window::Chat, OPEN_PAGE_FIRST@)],
        verdict: Err(text),
    }
}

/// What is made of a request to import cookies.
pub open spec fn importing(
    list: Seq<cookies::ImportedCookieView>,
    supported: bool,
) -> FlowView<ActionView> {
    checked(
        cookies::import_refusal(list),
        if supported {
            import_flow(list)
        } else {
            unsupported_flow(NO_IMPORT@)
        },
    )
}

/// Writes cookies to the page's cookie store and loads the page anew. The answer is how
/// many there were. `supported` is whether the platform's web view can write cookies.
pub fn import_cookies(list: Vec<ImportedCookie>, supported: bool) -> (flow: Flow<Action>)
    ensures
        flow@ == importing(cookies::cookies_view(list@), supported),
{
    if let Some(refusal) = cookies::check_import(&list) {
        return Flow::refusing(refusal.text());
    }
    let count: usize = list.len();
    let found = host::find(Window::Chat, OPEN_PAGE_FIRST);
    if supported {
        let ghost view = cookies::cookies_view(list@);
        let steps = vec![found, host::plain(Action::WriteCookies(list))];
        assert(flow::steps_view(steps@) =~= import_flow(view).pending.take(2));
        assert(address::is_plain_address(address::SITE@));
        let flow = address::open_after(steps, address::SITE, Reply::Count(count));
        assert(flow@.pending =~= import_flow(view).pending);
        flow
    } else {
        let steps = vec![found];
        assert(flow::steps_view(steps@) =~= unsupported_flow(NO_IMPORT@).pending);
        Flow::new(steps, Err(NO_IMPORT.to_string()))
    }
}

/// The flow that exports cookies the web view can read.
pub open spec fn export_flow() -> FlowView<ActionView> {
    FlowView {
        pending: seq![
            host::find_step(Window::Chat, OPEN_PAGE_FIRST@),
            host::plain_step(ActionView::ReadCookies),
        ],
        verdict: Ok(Reply::Done),
    }
}

/// What is made of a request to export cookies.
pub open spec fn exporting(supported: bool) -> FlowView<ActionView> {
    if supported {
        export_flow()
    } else {
        unsupported_flow(NO_EXPORT@)
    }
}

/// Has the web view read its cookies and hand them to the page. `supported` is whether the
/// platform's web view can read cookies.
pub fn export_cookies(supported: bool) -> (flow: Flow<Action>)
    ensures
        flow@ == exporting(supported),
{
    let found = host::find(Window::Chat, OPEN_PAGE_FIRST);
    if supported {
        let steps = vec![found, host::plain(Action::ReadCookies)];
        assert(flow::steps_view(steps@) =~= export_flow().pending);
        Flow::new(steps, Ok(Reply::Done))
    } else {
        let steps = vec![found];
        assert(flow::steps_view(steps@) =~= unsupported_flow(NO_EXPORT@).pending);
        Flow::new(steps, Err(NO_EXPORT.to_string()))
    }
}

/// What is made of an event of the page.
pub open spec fn relaying(payload: StreamEventView) -> FlowView<ActionView> {
    FlowView {
        pending: seq![host::plain_step(ActionView::Emit(payload))],
        verdict: Ok(Reply::Done),
    }
}

/// Sends an event of the page to the main window.
pub fn relay_stream_event(payload: StreamEvent) -> (flow: Flow<Action>)
    ensures
        flow@ == relaying(payload@),
{
    let steps = vec![host::plain(Action::Emit(payload))];
    assert(flow::steps_view(steps@) =~= seq![host::plain_step(ActionView::Emit(payload@))]);
    Flow::new(steps, Ok(Reply::Done))
}

/// How many messages are to be shown again.
pub open spec fn history_length(history_limit: Option<usize>) -> usize {
    match history_limit {
        Some(limit) => limit,
        None => USUAL_HISTORY,
    }
}

/// Why flight mode is not entered, if it is not.
pub open spec fn history_refusal(history_limit: Option<usize>) -> Option<Refusal> {
    if 1 <= history_length(history_limit) <= MOST_HISTORY {
        None
    } else {
        Some(Refusal::HistoryLimit)
    }
}

/// The step that asks for the newest `limit` messages.
pub open spec fn history_step(limit: nat) -> StepView<ActionView> {
    StepView {
        action: ActionView::Run(
            Window::Chat,
            ScriptView::Text(scripts::call_of("loadHistory"@, text::decimal(limit))),
        ),
        failure: FailureView::Prefixed(NO_HISTORY@),
    }
}

/// The flow that enters flight mode: the bridge is installed and asked for the history, the
/// chat window is hidden, and the main window comes up and hears of it.
pub open spec fn enter_flow(limit: nat) -> FlowView<ActionView> {
    FlowView {
        pending: seq![
            host::find_step(Window::Chat, SIGN_IN_FIRST@),
            host::bridge_step(NO_BRIDGE@),
            history_step(limit),
            host::plain_step(ActionView::Hide(Window::Chat)),
            host::find_step(Window::Main, NO_MAIN_WINDOW@),
            host::plain_step(ActionView::Show(Window::Main)),
            host::plain_step(ActionView::Focus(Window::Main)),
            host::plain_step(ActionView::Emit(StreamEventView::of_kind(FLIGHT_ACTIVE@))),
        ],
        verdict: Ok(Reply::Done),
    }
}

/// What is made of a request to enter flight mode.
pub open spec fn entering(history_limit: Option<usize>) -> FlowView<ActionView> {
    checked(history_refusal(history_limit), enter_flow(history_length(history_limit) as nat))
}

/// Enters flight mode, with the newest `history_limit` messages shown again.
pub fn enter_flight_mode(history_limit: Option<usize>) -> (flow: Flow<Action>)
    ensures
        flow@ == entering(history_limit),
{
    let limit: usize = match history_limit {
        Some(limit) => limit,
        None => USUAL_HISTORY,
    };
    if limit < 1 || limit > MOST_HISTORY {
        return Flow::refusing(Refusal::HistoryLimit.text());
    }
    let history = Step {
        action: Action::Run(Window::Chat, Script::Text(scripts::history_script(limit))),
        failure: Failure::Prefixed(NO_HISTORY),
    };
    let steps = vec![
        host::find(Window::Chat, SIGN_IN_FIRST),
        host::bridge(NO_BRIDGE),
        history,
        host::plain(Action::Hide(Window::Chat)),
        host::find(Window::Main, NO_MAIN_WINDOW),
        host::plain(Action::Show(Window::Main)),
        host::plain(Action::Focus(Window::Main)),
        host::plain(Action::Emit(StreamEvent::of_kind(FLIGHT_ACTIVE))),
    ];
    assert(flow::steps_view(steps@) =~= enter_flow(limit as nat).pending);
    Flow::new(steps, Ok(Reply::Done))
}

/// The flow that installs the bridge.
pub open spec fn prepare_flow() -> FlowView<ActionView> {
    FlowView {
        pending: seq![
            host::find_step(Window::Chat, SIGN_IN_FIRST@),
            host::bridge_step(NO_BRIDGE@),
        ],
        verdict: Ok(Reply::Done),
    }
}

/// Installs the bridge in the page.
pub fn prepare_web_bridge() -> (flow: Flow<Action>)
    ensures
        flow@ == prepare_flow(),
{
    let steps = vec![host::find(Window::Chat, SIGN_IN_FIRST), host::bridge(NO_BRIDGE)];
    assert(flow::steps_view(steps@) =~= prepare_flow().pending);
    Flow::new(steps, Ok(Reply::Done))
}

/// The flow that leaves flight mode: the chat window comes up, and the bridge is installed
/// again, which brings back the controls that were switched off on entering.
pub open spec fn exit_flow() -> FlowView<ActionView> {
    FlowView {
        pending: seq![
            host::find_step(Window::Chat, NO_CHAT_WINDOW@),
            host::plain_step(ActionView::Show(Window::Chat)),
            host::plain_step(ActionView::Focus(Window::Chat)),
            host::bridge_step(NO_CONTROLS@),
        ],
        verdict: Ok(Reply::Done),
    }
}

/// Leaves flight mode.
pub fn exit_flight_mode() -> (flow: Flow<Action>)
    ensures
        flow@ == exit_flow(),
{
    let steps = vec![
        host::find(Window::Chat, NO_CHAT_WINDOW),
        host::plain(Action::Show(Window::Chat)),
        host::plain(Action::Focus(Window::Chat)),
        host::bridge(NO_CONTROLS),
    ];
    assert(flow::steps_view(steps@) =~= exit_flow().pending);
    Flow::new(steps, Ok(Reply::Done))
}

/// The flow that leads the chat window to an address.
pub open spec fn page_flow(address: Seq<char>) -> FlowView<ActionView> {
    FlowView {
        pending: seq![
            host::find_step(Window::Chat, NO_CHAT_WINDOW@),
            host::plain_step(ActionView::Navigate(Window::Chat, address)),
        ],
        verdict: Ok(Reply::Done),
    }
}

/// Leads the chat window to an address on the site.
fn open_plain_page(address: &str) -> (flow: Flow<Action>)
    requires
        address::is_plain_address(address@),
    ensures
        flow@ == page_flow(address@),
{
    let flow = address::open_page(address);
    assert(flow@.pending =~= page_flow(address@).pending);
    flow
}

/// Begins a new conversation.
pub fn new_conversation() -> (flow: Flow<Action>)
    ensures
        flow@ == page_flow(address::SITE@),
{
    open_plain_page(address::SITE)
}

/// Asks the bridge for the list of conversations.
pub fn load_conversation_list() -> (flow: Flow<Action>)
    ensures
        flow@ == script_flow(scripts::LOAD_LIST@),
{
    run_script(scripts::LOAD_LIST.to_string())
}

/// Whether `id` names a conversation.
pub open spec fn is_conversation_id(id: Seq<char>) -> bool {
    &&& id.len() > 0
    &&& text::byte_length(id) <= MOST_ID_BYTES
    &&& forall|i: int| 0 <= i < id.len() ==> address::is_id_char(#[trigger] id[i])
}

/// Whether `id` names a conversation.
pub fn conversation_id(id: &str) -> (yes: bool)
    ensures
        yes == is_conversation_id(id@),
{
    if id.is_empty() || text::bytes_of(id) > MOST_ID_BYTES {
        return false;
    }
    let list = text::characters(id);
    let mut i: usize = 0;
    while i < list.len()
        invariant
            list@ == id@,
            forall|j: int| 0 <= j < i ==> address::is_id_char(#[trigger] id@[j]),
        decreases list@.len() - i,
    {
        let c: char = list[i];
        if !(('0' <= c && c <= '9') || ('A' <= c && c <= 'Z') || ('a' <= c && c <= 'z') || c
            == '-') {
            assert(!address::is_id_char(id@[i as int]));
            return false;
        }
        i += 1;
    }
    true
}

/// The address of a conversation.
pub open spec fn conversation_address(id: Seq<char>) -> Seq<char> {
    "https://chatgpt.com/c/"@ + id
}

/// The address of a conversation lies on the site.
pub proof fn conversation_address_is_plain(id: Seq<char>)
    requires
        is_conversation_id(id),
    ensures
        address::is_plain_address(conversation_address(id)),
{
    reveal_strlit("https://chatgpt.com/");
    reveal_strlit("https://chatgpt.com/c/");
    let full = conversation_address(id);
    let site = address::SITE@;
    assert(site =~= full.subrange(0, site.len() as int));
    assert forall|i: int| site.len() <= i < full.len() implies address::is_id_char(
        #[trigger] full[i],
    ) || full[i] == '/' by {
        if i >= 22 {
            assert(full[i] == id[i - 22]);
        }
    }
}

/// What is made of a request for the conversation that the text names.
pub open spec fn selecting(id: Seq<char>) -> FlowView<ActionView> {
    checked(
        if is_conversation_id(text::trimmed(id)) {
            None
        } else {
            Some(Refusal::ConversationId)
        },
        page_flow(conversation_address(text::trimmed(id))),
    )
}

/// Leads the chat window to the conversation that the text names.
pub fn select_conversation(id: &str) -> (flow: Flow<Action>)
    ensures
        flow@ == selecting(id@),
{
    let id = text::trim(id);
    if !conversation_id(id) {
        return Flow::refusing(Refusal::ConversationId.text());
    }
    let mut address = "https://chatgpt.com/c/".to_string();
    address.append(id);
    proof {
        conversation_address_is_plain(id@);
    }
    open_plain_page(address.as_str())
}

/// Whether an image may be sent.
pub open spec fn is_acceptable_image(image: ImageView) -> bool {
    &&& text::byte_length(image.name) <= MOST_IMAGE_NAME_BYTES
    &&& "data:image/"@.is_prefix_of(image.data_url)
    &&& text::byte_length(image.data_url) <= MOST_IMAGE_BYTES
}

/// Whether an image may be sent.
pub fn acceptable_image(image: &ImageAttachment) -> (yes: bool)
    ensures
        yes == is_acceptable_image(image@),
{
    text::bytes_of(image.name.as_str()) <= MOST_IMAGE_NAME_BYTES && text::starts_with(
        image.data_url.as_str(),
        "data:image/",
    ) && text::bytes_of(image.data_url.as_str()) <= MOST_IMAGE_BYTES
}

/// Why a message is not sent, if it is not.
pub open spec fn message_refusal(message: Seq<char>, image: Option<ImageView>) -> Option<Refusal> {
    if message.len() == 0 && image is None {
        Some(Refusal::EmptyMessage)
    } else if message.len() > MOST_MESSAGE {
        Some(Refusal::LongMessage)
    } else if image is Some && !is_acceptable_image(image->0) {
        Some(Refusal::ImageFormat)
    } else {
        None
    }
}

/// Why a message is not sent, if it is not.
pub fn check_message(message: &str, image: &Option<ImageAttachment>) -> (refusal: Option<Refusal>)
    ensures
        refusal == message_refusal(message@, scripts::image_view(*image)),
{
    if message.is_empty() && image.is_none() {
        return Some(Refusal::EmptyMessage);
    }
    if message.unicode_len() > MOST_MESSAGE {
        return Some(Refusal::LongMessage);
    }
    match image {
        Some(image) => if acceptable_image(image) {
            None
        } else {
            Some(Refusal::ImageFormat)
        },
        None => None,
    }
}

/// What is made of a request to send a message.
pub open spec fn sending(
    text: Seq<char>,
    image: Option<ImageView>,
    preserve_composer: Option<bool>,
) -> FlowView<ActionView> {
    checked(
        message_refusal(text::trimmed(text), image),
        script_flow(
            scripts::send_script_of(text::trimmed(text), image, preserve_composer == Some(true)),
        ),
    )
}

/// Sends a message, an image or both. `preserve_composer` is whether the text in the page's
/// composer is to be kept; without it, it is not.
pub fn send_message(
    text: &str,
    image: &Option<ImageAttachment>,
    preserve_composer: Option<bool>,
) -> (flow: Flow<Action>)
    ensures
        flow@ == sending(text@, scripts::image_view(*image), preserve_composer),
{
    let message = text::trim(text);
    if let Some(refusal) = check_message(message, image) {
        return Flow::refusing(refusal.text());
    }
    let preserve = match preserve_composer {
        Some(preserve) => preserve,
        None => false,
    };
    run_script(scripts::send_script(message, image, preserve))
}

/// Why a draft is not handed on, if it is not.
pub open spec fn draft_refusal(draft: Seq<char>) -> Option<Refusal> {
    if draft.len() > 0 && (draft[0] == '@' || draft[0] == '/') && draft.len() <= MOST_COMMAND {
        None
    } else {
        Some(Refusal::CommandDraft)
    }
}

/// What is made of a draft.
pub open spec fn drafting(text: Seq<char>) -> FlowView<ActionView> {
    checked(
        draft_refusal(text::trimmed(text)),
        script_flow(scripts::call_of("updateCommandDraft"@, json::json_string(text::trimmed(text)))),
    )
}

/// Puts the beginning of a command into the page's composer.
pub fn update_command_draft(text: &str) -> (flow: Flow<Action>)
    ensures
        flow@ == drafting(text@),
{
    let draft = text::trim(text);
    let length: usize = draft.unicode_len();
    if length == 0 || length > MOST_COMMAND || !(draft.get_char(0) == '@' || draft.get_char(0)
        == '/') {
        return Flow::refusing(Refusal::CommandDraft.text());
    }
    run_script(scripts::text_script("updateCommandDraft", draft))
}

/// Why a command option is not chosen, if it is not.
pub open spec fn option_refusal(label: Seq<char>) -> Option<Refusal> {
    if 1 <= label.len() <= MOST_COMMAND {
        None
    } else {
        Some(Refusal::CommandOption)
    }
}

/// What is made of a request to choose a command option.
pub open spec fn choosing(text: Seq<char>) -> FlowView<ActionView> {
    checked(
        option_refusal(text::trimmed(text)),
        script_flow(scripts::call_of("selectCommandOption"@, json::json_string(text::trimmed(text)))),
    )
}

/// Chooses the command option with a label.
pub fn select_command_option(text: &str) -> (flow: Flow<Action>)
    ensures
        flow@ == choosing(text@),
{
    let label = text::trim(text);
    let length: usize = label.unicode_len();
    if length == 0 || length > MOST_COMMAND {
        return Flow::refusing(Refusal::CommandOption.text());
    }
    run_script(scripts::text_script("selectCommandOption", label))
}

/// Why the text after a command is not handed on, if it is not.
pub open spec fn command_text_refusal(text: Seq<char>) -> Option<Refusal> {
    if text.len() <= MOST_MESSAGE {
        None
    } else {
        Some(Refusal::CommandText)
    }
}

fn command_text(function: &str, text: &str) -> (flow: Flow<Action>)
    ensures
        flow@ == checked(
            command_text_refusal(text@),
            script_flow(scripts::call_of(function@, json::json_string(text@))),
        ),
{
    if text.unicode_len() > MOST_MESSAGE {
        return Flow::refusing(Refusal::CommandText.text());
    }
    run_script(scripts::text_script(function, text))
}

/// What is made of the text after a command.
pub open spec fn suffixing(text: Seq<char>) -> FlowView<ActionView> {
    checked(
        command_text_refusal(text),
        script_flow(scripts::call_of("updateCommandSuffix"@, json::json_string(text))),
    )
}

/// Puts the text after a chosen command into the page's composer, as it is.
pub fn update_command_suffix(text: &str) -> (flow: Flow<Action>)
    ensures
        flow@ == suffixing(text@),
{
    command_text("updateCommandSuffix", text)
}

/// What is made of a request to drop the chosen command.
pub open spec fn clearing(text: Seq<char>) -> FlowView<ActionView> {
    checked(
        command_text_refusal(text),
        script_flow(scripts::call_of("clearCommandSelection"@, json::json_string(text))),
    )
}

/// Drops the chosen command and puts `text`, as it is, into the page's composer.
pub fn clear_command_selection(text: &str) -> (flow: Flow<Action>)
    ensures
        flow@ == clearing(text@),
{
    command_text("clearCommandSelection", text)
}

/// A request that is turned down has the host do nothing, and the answer is the reason.
pub proof fn refused_request_does_nothing(
    refusal: Refusal,
    accepted: FlowView<ActionView>,
    outcomes: Seq<Result<(), Seq<char>>>,
)
    ensures
        checked(Some(refusal), accepted).pending.len() == 0,
        checked(Some(refusal), accepted).run(outcomes).verdict == Err::<Reply, Seq<char>>(
            refusal.spec_text(),
        ),
{
    flow::ended_flow_stays(checked(Some(refusal), accepted), outcomes);
}

/// White space around a message does not matter: it changes neither whether the message is
/// sent nor what is sent.
pub proof fn space_around_a_message_does_not_matter(
    before: Seq<char>,
    text: Seq<char>,
    after: Seq<char>,
    image: Option<ImageView>,
    preserve: bool,
)
    requires
        text::is_space(before),
        text::is_space(after),
    ensures
        ({
            let spaced = text::trimmed(before + text + after);
            let bare = text::trimmed(text);
            &&& message_refusal(spaced, image) == message_refusal(bare, image)
            &&& scripts::send_script_of(spaced, image, preserve) == scripts::send_script_of(
                bare,
                image,
                preserve,
            )
        }),
{
    text::space_around_is_trimmed(before, text, after);
}

/// Two conversations with the same address are the same conversation.
pub proof fn addresses_tell_conversations_apart(one: Seq<char>, other: Seq<char>)
    requires
        conversation_address(one) == conversation_address(other),
    ensures
        one == other,
{
    let head = "https://chatgpt.com/c/"@;
    assert(one =~= conversation_address(one).skip(head.len() as int));
    assert(other =~= conversation_address(other).skip(head.len() as int));
}

/// Entering flight mode hides the page and shows the main window.
pub proof fn entering_swaps_the_windows(limit: nat, page: bool, main: bool)
    ensures
        !host::visible_after(Window::Chat, page, enter_flow(limit).pending),
        host::visible_after(Window::Main, main, enter_flow(limit).pending),
{
    reveal_with_fuel(host::visible_after, 9);
}

/// The page is hidden only once the bridge was installed and asked for the history.
pub proof fn page_is_hidden_after_the_bridge(limit: nat, outcomes: Seq<Result<(), Seq<char>>>)
    requires
        outcomes.len() == 3,
    ensures
        enter_flow(limit).run(outcomes).pending.len() > 0 <==> outcomes[0] is Ok
            && outcomes[1] is Ok && outcomes[2] is Ok,
        enter_flow(limit).run(outcomes).pending.len() > 0 ==> enter_flow(limit).run(
            outcomes,
        ).pending[0].action == ActionView::Hide(Window::Chat),
{
    flow::reached_after_successes(enter_flow(limit), outcomes);
}

/// Leaving flight mode shows the page again.
pub proof fn leaving_shows_the_page(page: bool)
    ensures
        host::visible_after(Window::Chat, page, exit_flow().pending),
{
    reveal_with_fuel(host::visible_after, 5);
}

} // verus!
