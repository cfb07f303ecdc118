//! What the commands promise: which requests are refused, and what the accepted ones do to
//! the desktop.

use vstd::prelude::*;

use crate::address;
use crate::commands;
use crate::cookies;
use crate::cookies::ImportedCookieView;
use crate::desk::{Desk, Pane, Place, Task};
use crate::event::StreamEventView;
use crate::flow::{FailureView, FlowView, Reply, StepView};
use crate::host::{ActionView, Monitor, ScriptView, Size, Window};
use crate::json;
use crate::scripts;
use crate::scripts::ImageView;
use crate::split;
use crate::split::{Layout, RevealView, SplitViewState};
use crate::text;

verus! {

/// A flow that changes nothing and answers `words` as an error.
pub open spec fn turns_down(flow: FlowView<ActionView>, words: Seq<char>) -> bool {
    flow.pending.len() == 0 && flow.verdict == Err::<Reply, Seq<char>>(words)
}

/// A flow that takes `before` to `after` and answers that it was done.
pub open spec fn leads(flow: FlowView<ActionView>, before: Desk, after: Desk) -> bool {
    before.performed(flow.pending) == after && flow.verdict == Ok::<Reply, Seq<char>>(Reply::Done)
}

/// A flow that looks the chat window up first and has `words` for its answer where there is
/// none; of whatever fails later the host's own words are the answer.
pub open spec fn needs_chat(flow: FlowView<ActionView>, words: Seq<char>) -> bool {
    &&& flow.pending.len() > 0
    &&& flow.pending[0].action == ActionView::Find(Window::Chat)
    &&& flow.pending[0].failure == FailureView::Replaced(words)
    &&& forall|i: int|
        0 < i < flow.pending.len() ==> (#[trigger] flow.pending[i]).failure
            == FailureView::Verbatim
}

proof fn first_then_rest(desk: Desk, steps: Seq<StepView<ActionView>>)
    requires
        steps.len() > 0,
    ensures
        desk.performed(steps) == desk.did(steps[0].action).performed(steps.skip(1)),
{
    assert(steps.skip(1) =~= steps.drop_first());
}

proof fn two_performed(desk: Desk, steps: Seq<StepView<ActionView>>)
    requires
        steps.len() == 2,
    ensures
        desk.performed(steps) == desk.did(steps[0].action).did(steps[1].action),
{
    reveal_with_fuel(Desk::performed, 3);
}

proof fn three_performed(desk: Desk, steps: Seq<StepView<ActionView>>)
    requires
        steps.len() == 3,
    ensures
        desk.performed(steps) == desk.did(steps[0].action).did(steps[1].action).did(
            steps[2].action,
        ),
{
    first_then_rest(desk, steps);
    two_performed(desk.did(steps[0].action), steps.skip(1));
}

proof fn four_performed(desk: Desk, steps: Seq<StepView<ActionView>>)
    requires
        steps.len() == 4,
    ensures
        desk.performed(steps) == desk.did(steps[0].action).did(steps[1].action).did(
            steps[2].action,
        ).did(steps[3].action),
{
    first_then_rest(desk, steps);
    three_performed(desk.did(steps[0].action), steps.skip(1));
}

proof fn eight_performed(desk: Desk, steps: Seq<StepView<ActionView>>)
    requires
        steps.len() == 8,
    ensures
        desk.performed(steps) == desk.did(steps[0].action).did(steps[1].action).did(
            steps[2].action,
        ).did(steps[3].action).did(steps[4].action).did(steps[5].action).did(
            steps[6].action,
        ).did(steps[7].action),
{
    first_then_rest(desk, steps);
    let one = desk.did(steps[0].action);
    first_then_rest(one, steps.skip(1));
    assert(steps.skip(1).skip(1) =~= steps.skip(2));
    let two = one.did(steps[1].action);
    first_then_rest(two, steps.skip(2));
    assert(steps.skip(2).skip(1) =~= steps.skip(3));
    let three = two.did(steps[2].action);
    first_then_rest(three, steps.skip(3));
    assert(steps.skip(3).skip(1) =~= steps.skip(4));
    four_performed(three.did(steps[3].action), steps.skip(4));
}

proof fn seven_performed(desk: Desk, steps: Seq<StepView<ActionView>>)
    requires
        steps.len() == 7,
    ensures
        desk.performed(steps) == desk.did(steps[0].action).did(steps[1].action).did(
            steps[2].action,
        ).did(steps[3].action).did(steps[4].action).did(steps[5].action).did(steps[6].action),
{
    first_then_rest(desk, steps);
    let one = desk.did(steps[0].action);
    first_then_rest(one, steps.skip(1));
    assert(steps.skip(1).skip(1) =~= steps.skip(2));
    let two = one.did(steps[1].action);
    first_then_rest(two, steps.skip(2));
    assert(steps.skip(2).skip(1) =~= steps.skip(3));
    four_performed(two.did(steps[2].action), steps.skip(3));
}

/// Whether an image goes with a message: its name takes at most 240 bytes, and its data URL
/// is one of an image and takes at most 14 MiB.
pub open spec fn is_sendable(image: ImageView) -> bool {
    &&& text::byte_length(image.name) <= 240
    &&& image.data_url.len() >= 11
    &&& image.data_url.take(11) == "data:image/"@
    &&& text::byte_length(image.data_url) <= 14 * 1024 * 1024
}

/// A message is refused if and only if there is neither a text nor an image, or the text has
/// more than 40,000 characters, or the image cannot be sent; otherwise the one thing that is
/// done is that the script with the message, the image and the choice is run in the page.
pub proof fn message_is_sent_unless_empty_long_or_with_a_bad_image(
    text: Seq<char>,
    image: Option<ImageView>,
    preserve_composer: Option<bool>,
    desk: Desk,
)
    ensures
        ({
            let flow = commands::sending(text, image, preserve_composer);
            let message = text::trimmed(text);
            if message.len() == 0 && image is None {
                turns_down(flow, "消息或图片不能为空"@)
            } else if message.len() > 40_000 {
                turns_down(flow, "单条消息不能超过 40,000 个字符"@)
            } else if image is Some && !is_sendable(image->0) {
                turns_down(flow, "图片格式无效或超过 10MB"@)
            } else {
                &&& leads(
                    flow,
                    desk,
                    desk.ran(
                        ScriptView::Text(
                            scripts::send_script_of(
                                message,
                                image,
                                preserve_composer is Some && preserve_composer->0,
                            ),
                        ),
                    ),
                )
                &&& needs_chat(flow, "网页登录窗口尚未创建"@)
            }
        }),
{
    let flow = commands::sending(text, image, preserve_composer);
    reveal_strlit("data:image/");
    if image is Some {
        let data = image->0.data_url;
        if data.len() >= 11 {
            assert(data.take(11) =~= data.subrange(0, 11));
        }
    }
    if flow.pending.len() > 0 {
        two_performed(desk, flow.pending);
    }
}

/// Whether an image is refused does not depend on the text that goes with it.
pub proof fn image_is_judged_alone(one: Seq<char>, other: Seq<char>, image: ImageView)
    requires
        one.len() <= 40_000,
        other.len() <= 40_000,
    ensures
        commands::message_refusal(one, Some(image)) == commands::message_refusal(
            other,
            Some(image),
        ),
{
}

/// The script that sends a message hands the bridge the message, the image or `null`, and
/// whether the composer is kept, in this order.
pub proof fn send_script_carries_the_request(
    message: Seq<char>,
    image: Option<ImageView>,
    preserve_composer: bool,
)
    ensures
        ({
            let script = scripts::send_script_of(message, image, preserve_composer);
            let head = scripts::SEND_HEAD@;
            let tail = scripts::SEND_TAIL@;
            let picture = match image {
                Some(image) => "{\"name\":"@ + json::json_string(image.name) + ",\"dataUrl\":"@
                    + json::json_string(image.data_url) + "}"@,
                None => "null"@,
            };
            let keep = if preserve_composer {
                "true"@
            } else {
                "false"@
            };
            &&& script.len() >= head.len() + tail.len()
            &&& script.take(head.len() as int) == head
            &&& script.skip(script.len() - tail.len()) == tail
            &&& script.subrange(head.len() as int, script.len() - tail.len())
                == json::json_string(message) + ", "@ + picture + ", "@ + keep
        }),
{
    let script = scripts::send_script_of(message, image, preserve_composer);
    let head = scripts::SEND_HEAD@;
    let tail = scripts::SEND_TAIL@;
    let arguments = json::json_string(message) + ", "@ + scripts::image_json(image) + ", "@
        + scripts::truth(preserve_composer);
    assert(script =~= head + arguments + tail);
    assert(script.take(head.len() as int) =~= head);
    assert(script.skip(script.len() - tail.len()) =~= tail);
    assert(script.subrange(head.len() as int, script.len() - tail.len()) =~= arguments);
}

/// A conversation is led to if and only if its identifier has 1 to 128 characters, all of
/// them ASCII letters, ASCII digits or hyphens; the address is then that of conversations
/// followed by the identifier, whatever its length.
pub proof fn conversation_is_opened_by_its_identifier(id: Seq<char>, desk: Desk)
    ensures
        ({
            let flow = commands::selecting(id);
            let name = text::trimmed(id);
            let address = desk.performed(flow.pending).chat.address;
            if 1 <= name.len() <= 128 && forall|i: int|
                0 <= i < name.len() ==> ('a' <= #[trigger] name[i] <= 'z' || 'A' <= name[i] <= 'Z'
                    || '0' <= name[i] <= '9' || name[i] == '-') {
                &&& leads(flow, desk, Desk { chat: Pane { address, ..desk.chat }, ..desk })
                &&& address.len() == 22 + name.len()
                &&& address.take(22) == "https://chatgpt.com/c/"@
                &&& address.skip(22) == name
                &&& needs_chat(flow, "网页登录窗口尚未创建"@)
            } else {
                turns_down(flow, "会话标识无效"@)
            }
        }),
{
    let flow = commands::selecting(id);
    let name = text::trimmed(id);
    let prefix = "https://chatgpt.com/c/"@;
    if forall|i: int| 0 <= i < name.len() ==> address::is_id_char(#[trigger] name[i]) {
        text::ascii_takes_a_byte_each(name);
    }
    if flow.pending.len() > 0 {
        assert(forall|i: int| 0 <= i < name.len() ==> address::is_id_char(#[trigger] name[i]));
        two_performed(desk, flow.pending);
        reveal_strlit("https://chatgpt.com/c/");
        assert((prefix + name).take(22) =~= prefix);
        assert((prefix + name).skip(22) =~= name);
    }
}

/// A new conversation begins at the site; the list of conversations is asked for by its
/// script.
pub proof fn site_and_list_are_reached(desk: Desk)
    ensures
        ({
            let flow = commands::page_flow(address::SITE@);
            &&& leads(
                flow,
                desk,
                Desk { chat: Pane { address: "https://chatgpt.com/"@, ..desk.chat }, ..desk },
            )
            &&& needs_chat(flow, "网页登录窗口尚未创建"@)
        }),
        ({
            let flow = commands::script_flow(scripts::LOAD_LIST@);
            &&& leads(
                flow,
                desk,
                desk.ran(ScriptView::Text("window.__flightChat?.loadConversationList?.();"@)),
            )
            &&& needs_chat(flow, "网页登录窗口尚未创建"@)
        }),
{
    two_performed(desk, commands::page_flow(address::SITE@).pending);
    two_performed(desk, commands::script_flow(scripts::LOAD_LIST@).pending);
}

/// The script that calls a function is its call and nothing else.
proof fn call_is(function: Seq<char>, argument: Seq<char>, call: Seq<char>)
    requires
        call == "window.__flightChat?."@ + function + "?.("@,
    ensures
        scripts::call_of(function, argument) == call + argument + ");"@,
{
}

/// A flow that hands a text to the bridge.
pub open spec fn hands_over(
    flow: FlowView<ActionView>,
    desk: Desk,
    call: Seq<char>,
    text: Seq<char>,
) -> bool {
    &&& leads(
        flow,
        desk,
        desk.ran(ScriptView::Text(call + json::json_string(text) + ");"@)),
    )
    &&& needs_chat(flow, "网页登录窗口尚未创建"@)
}

/// A draft is handed to the page if and only if it begins with `@` or `/` and has at most 240
/// characters.
pub proof fn draft_is_handed_over(text: Seq<char>, desk: Desk)
    ensures
        ({
            let flow = commands::drafting(text);
            let draft = text::trimmed(text);
            if 1 <= draft.len() <= 240 && (draft[0] == '@' || draft[0] == '/') {
                hands_over(flow, desk, "window.__flightChat?.updateCommandDraft?.("@, draft)
            } else {
                turns_down(flow, "命令草稿必须以 @ 或 / 开头，且不超过 240 个字符"@)
            }
        }),
{
    let flow = commands::drafting(text);
    reveal_strlit("window.__flightChat?.");
    reveal_strlit("updateCommandDraft");
    reveal_strlit("?.(");
    reveal_strlit("window.__flightChat?.updateCommandDraft?.(");
    let call = "window.__flightChat?.updateCommandDraft?.("@;
    assert(call =~= "window.__flightChat?."@ + "updateCommandDraft"@ + "?.("@);
    call_is("updateCommandDraft"@, json::json_string(text::trimmed(text)), call);
    if flow.pending.len() > 0 {
        two_performed(desk, flow.pending);
    }
}

/// A command option is chosen if and only if its label has 1 to 240 characters.
pub proof fn option_is_handed_over(text: Seq<char>, desk: Desk)
    ensures
        ({
            let flow = commands::choosing(text);
            let label = text::trimmed(text);
            if 1 <= label.len() <= 240 {
                hands_over(flow, desk, "window.__flightChat?.selectCommandOption?.("@, label)
            } else {
                turns_down(flow, "命令候选内容无效"@)
            }
        }),
{
    let flow = commands::choosing(text);
    reveal_strlit("window.__flightChat?.");
    reveal_strlit("selectCommandOption");
    reveal_strlit("?.(");
    reveal_strlit("window.__flightChat?.selectCommandOption?.(");
    let call = "window.__flightChat?.selectCommandOption?.("@;
    assert(call =~= "window.__flightChat?."@ + "selectCommandOption"@ + "?.("@);
    call_is("selectCommandOption"@, json::json_string(text::trimmed(text)), call);
    if flow.pending.len() > 0 {
        two_performed(desk, flow.pending);
    }
}

/// The text after a command is handed to the page, as it is, if and only if it has at most
/// 40,000 characters.
pub proof fn suffix_is_handed_over(text: Seq<char>, desk: Desk)
    ensures
        ({
            let flow = commands::suffixing(text);
            if text.len() <= 40_000 {
                hands_over(flow, desk, "window.__flightChat?.updateCommandSuffix?.("@, text)
            } else {
                turns_down(flow, "命令后的文字不能超过 40,000 个字符"@)
            }
        }),
{
    let flow = commands::suffixing(text);
    reveal_strlit("window.__flightChat?.");
    reveal_strlit("updateCommandSuffix");
    reveal_strlit("?.(");
    reveal_strlit("window.__flightChat?.updateCommandSuffix?.(");
    let call = "window.__flightChat?.updateCommandSuffix?.("@;
    assert(call =~= "window.__flightChat?."@ + "updateCommandSuffix"@ + "?.("@);
    call_is("updateCommandSuffix"@, json::json_string(text), call);
    if flow.pending.len() > 0 {
        two_performed(desk, flow.pending);
    }
}

/// The text that is left once a command is dropped is handed to the page, as it is, if and
/// only if it has at most 40,000 characters.
pub proof fn cleared_text_is_handed_over(text: Seq<char>, desk: Desk)
    ensures
        ({
            let flow = commands::clearing(text);
            if text.len() <= 40_000 {
                hands_over(flow, desk, "window.__flightChat?.clearCommandSelection?.("@, text)
            } else {
                turns_down(flow, "命令后的文字不能超过 40,000 个字符"@)
            }
        }),
{
    let flow = commands::clearing(text);
    reveal_strlit("window.__flightChat?.");
    reveal_strlit("clearCommandSelection");
    reveal_strlit("?.(");
    reveal_strlit("window.__flightChat?.clearCommandSelection?.(");
    let call = "window.__flightChat?.clearCommandSelection?.("@;
    assert(call =~= "window.__flightChat?."@ + "clearCommandSelection"@ + "?.("@);
    call_is("clearCommandSelection"@, json::json_string(text), call);
    if flow.pending.len() > 0 {
        two_performed(desk, flow.pending);
    }
}

/// The scripts that follow an export hand the page the cookies as they are, or the words for
/// what went wrong.
pub proof fn export_is_answered(cookies: Seq<char>, error: Seq<char>)
    ensures
        scripts::call_of("completeCookieExport"@, cookies)
            == "window.__flightChat?.completeCookieExport?.("@ + cookies + ");"@,
        scripts::call_of("failCookieExport"@, json::json_string(error))
            == "window.__flightChat?.failCookieExport?.("@ + json::json_string(error) + ");"@,
{
    reveal_strlit("window.__flightChat?.");
    reveal_strlit("completeCookieExport");
    reveal_strlit("failCookieExport");
    reveal_strlit("?.(");
    reveal_strlit("window.__flightChat?.completeCookieExport?.(");
    reveal_strlit("window.__flightChat?.failCookieExport?.(");
    let complete = "window.__flightChat?.completeCookieExport?.("@;
    let fail = "window.__flightChat?.failCookieExport?.("@;
    assert(complete =~= "window.__flightChat?."@ + "completeCookieExport"@ + "?.("@);
    assert(fail =~= "window.__flightChat?."@ + "failCookieExport"@ + "?.("@);
}

/// Flight mode is entered if and only if 1 to 100 messages are to be shown again, five where
/// no number is given. The page then holds the bridge and was asked for so many messages, it
/// is hidden, and the main window is visible, has the focus and has heard of it.
pub proof fn flight_mode_is_entered(history_limit: Option<usize>, desk: Desk)
    ensures
        ({
            let flow = commands::entering(history_limit);
            let limit = if history_limit is Some {
                history_limit->0
            } else {
                5
            };
            let script = "window.__flightChat?.loadHistory?.("@ + text::decimal(limit as nat)
                + ");"@;
            let event = StreamEventView {
                kind: "flight_active"@,
                text: None,
                conversation_id: None,
                title: None,
                error: None,
                messages: None,
            };
            if 1 <= limit <= 100 {
                leads(
                    flow,
                    desk,
                    Desk {
                        main: Pane { visible: true, ..desk.main },
                        chat: Pane {
                            visible: false,
                            scripts: desk.chat.scripts.push(ScriptView::Bridge).push(
                                ScriptView::Text(script),
                            ),
                            ..desk.chat
                        },
                        focus: Window::Main,
                        events: desk.events.push(event),
                        ..desk
                    },
                )
            } else {
                turns_down(flow, "历史回显条数需要在 1 到 100 之间"@)
            }
        }),
{
    let flow = commands::entering(history_limit);
    reveal_strlit("window.__flightChat?.");
    reveal_strlit("loadHistory");
    reveal_strlit("?.(");
    reveal_strlit("window.__flightChat?.loadHistory?.(");
    let call = "window.__flightChat?.loadHistory?.("@;
    assert(call =~= "window.__flightChat?."@ + "loadHistory"@ + "?.("@);
    if flow.pending.len() > 0 {
        eight_performed(desk, flow.pending);
    }
}

/// What is told of each step that fails on the way into flight mode.
pub proof fn failure_on_entering_is_told(history_limit: Option<usize>, i: int)
    requires
        0 <= i < commands::entering(history_limit).pending.len(),
    ensures
        ({
            let steps = commands::entering(history_limit).pending;
            &&& steps.len() == 8
            &&& steps[0].action == ActionView::Find(Window::Chat)
            &&& steps[1].action == ActionView::Run(Window::Chat, ScriptView::Bridge)
            &&& steps[2].action is Run
            &&& steps[4].action == ActionView::Find(Window::Main)
            &&& steps[7].action is Emit
            &&& steps[i].failure == if i == 0 {
                FailureView::Replaced("请先打开网页登录窗口并完成登录"@)
            } else if i == 1 {
                FailureView::Prefixed("无法初始化网页消息桥接："@)
            } else if i == 2 {
                FailureView::Prefixed("无法读取当前会话历史："@)
            } else if i == 4 {
                FailureView::Replaced("未找到 Flight 主窗口"@)
            } else {
                FailureView::Verbatim
            }
        }),
{
}

/// Preparing the page installs the bridge in it. Leaving flight mode shows the page, gives it
/// the focus and installs the bridge again.
pub proof fn bridge_is_installed(desk: Desk)
    ensures
        leads(commands::prepare_flow(), desk, desk.ran(ScriptView::Bridge)),
        leads(
            commands::exit_flow(),
            desk,
            Desk {
                chat: Pane {
                    visible: true,
                    scripts: desk.chat.scripts.push(ScriptView::Bridge),
                    ..desk.chat
                },
                focus: Window::Chat,
                ..desk
            },
        ),
        ({
            let steps = commands::prepare_flow().pending;
            &&& steps[0].action == ActionView::Find(Window::Chat)
            &&& steps[0].failure == FailureView::Replaced("请先打开网页登录窗口并完成登录"@)
            &&& steps[1].failure == FailureView::Prefixed("无法初始化网页消息桥接："@)
        }),
        ({
            let steps = commands::exit_flow().pending;
            &&& steps[0].action == ActionView::Find(Window::Chat)
            &&& steps[0].failure == FailureView::Replaced("网页登录窗口尚未创建"@)
            &&& steps[1].failure == FailureView::Verbatim
            &&& steps[2].failure == FailureView::Verbatim
            &&& steps[3].action == ActionView::Run(Window::Chat, ScriptView::Bridge)
            &&& steps[3].failure == FailureView::Prefixed("无法恢复网页控制按钮："@)
        }),
{
    two_performed(desk, commands::prepare_flow().pending);
    four_performed(desk, commands::exit_flow().pending);
}

/// An event of the page reaches the main window as it is, and nothing else comes of it.
pub proof fn event_is_relayed(payload: StreamEventView, desk: Desk)
    ensures
        leads(
            commands::relaying(payload),
            desk,
            Desk { events: desk.events.push(payload), ..desk },
        ),
        commands::relaying(payload).pending.len() == 1,
        commands::relaying(payload).pending[0].failure == FailureView::Verbatim,
{
    reveal_with_fuel(Desk::performed, 2);
}

/// An import of 1 to 128 cookies, each with a name, a value of at most 16,384 bytes and an
/// accepted domain, has all of them written, then the page loaded anew, and answers their
/// number; every other import is refused and nothing is done. Where the web view cannot
/// write cookies, nothing is done either.
pub proof fn cookies_are_imported(list: Seq<ImportedCookieView>, desk: Desk)
    ensures
        ({
            let flow = commands::importing(list, true);
            let other = commands::importing(list, false);
            if list.len() == 0 || list.len() > 128 {
                &&& turns_down(flow, "请选择 1 到 128 条 Cookie"@)
                &&& turns_down(other, "请选择 1 到 128 条 Cookie"@)
            } else if forall|i: int|
                0 <= i < list.len() ==> (#[trigger] list[i]).name.len() > 0 && text::byte_length(
                    list[i].value,
                ) <= 16_384 && cookies::is_accepted_domain(list[i].domain) {
                &&& desk.performed(flow.pending) == (Desk {
                    chat: Pane { address: "https://chatgpt.com/"@, ..desk.chat },
                    written: desk.written.push(list),
                    ..desk
                })
                &&& flow.verdict == Ok::<Reply, Seq<char>>(Reply::Count(list.len() as usize))
                &&& flow.pending[1].action == ActionView::WriteCookies(list)
                &&& needs_chat(flow, "请先打开网页登录窗口"@)
                &&& desk.performed(other.pending) == desk
                &&& other.verdict == Err::<Reply, Seq<char>>(
                    "当前平台暂不支持原生 Cookie 导入"@,
                )
                &&& needs_chat(other, "请先打开网页登录窗口"@)
            } else {
                &&& turns_down(
                    flow,
                    "Cookie 格式无效，或包含非 chatgpt.com / openai.com 域"@,
                )
                &&& turns_down(
                    other,
                    "Cookie 格式无效，或包含非 chatgpt.com / openai.com 域"@,
                )
            }
        }),
{
    cookies::import_is_judged_by_number_name_value_and_domain(list);
    let flow = commands::importing(list, true);
    let other = commands::importing(list, false);
    if flow.pending.len() > 0 {
        three_performed(desk, flow.pending);
        reveal_with_fuel(Desk::performed, 2);
        assert(other.pending.drop_first() =~= seq![]);
    }
}

/// An export has the web view read its cookies once; where it cannot, nothing is done.
pub proof fn cookies_are_exported(desk: Desk)
    ensures
        leads(commands::exporting(true), desk, Desk { reads: desk.reads + 1, ..desk }),
        needs_chat(commands::exporting(true), "请先打开网页登录窗口"@),
        desk.performed(commands::exporting(false).pending) == desk,
        commands::exporting(false).verdict == Err::<Reply, Seq<char>>(
            "当前平台暂不支持原生 Cookie 导出"@,
        ),
        needs_chat(commands::exporting(false), "请先打开网页登录窗口"@),
{
    two_performed(desk, commands::exporting(true).pending);
    reveal_with_fuel(Desk::performed, 2);
    assert(commands::exporting(false).pending.drop_first() =~= seq![]);
}

/// Arranging a layout puts each window where the layout has it, in the size that the layout
/// gives it, shows both and gives the main window the focus.
pub proof fn layout_is_what_is_arranged(layout: Layout, epoch: u64, desk: Desk)
    ensures
        leads(
            split::arranging_flow(layout, epoch),
            desk,
            Desk {
                main: Pane {
                    visible: true,
                    place: Place::At(layout.main_position),
                    size: layout.main_size,
                    ..desk.main
                },
                chat: Pane {
                    visible: true,
                    place: Place::At(layout.chat_position),
                    size: layout.chat_size,
                    ..desk.chat
                },
                focus: Window::Main,
                tasks: desk.tasks.push(Task::Reveal(epoch)),
                ..desk
            },
        ),
        ({
            let steps = split::arranging_flow(layout, epoch).pending;
            &&& steps.last().action == ActionView::RevealLater(epoch)
            &&& steps[steps.len() - 2].action == ActionView::Focus(Window::Main)
            &&& forall|i: int|
                0 <= i < steps.len() ==> (#[trigger] steps[i]).failure == FailureView::Verbatim
        }),
{
    eight_performed(desk, split::arranging_flow(layout, epoch).pending);
}

/// Opening the split view puts the main window at the upper left corner of the monitor that
/// it is on, or else of the primary one, and the chat window directly to the right of it.
/// The main window takes half the width, the chat window the rest, and both all the height
/// but 36 pixels, but neither is less than 520 wide and 620 high.
pub proof fn split_view_places_the_windows(
    epoch: u64,
    current: Option<Monitor>,
    primary: Option<Monitor>,
    desk: Desk,
)
    requires
        current is Some || primary is Some,
        ({
            let monitor = if current is Some {
                current->0
            } else {
                primary->0
            };
            monitor.position.x + monitor.size.width as int / 2 <= 0x7fff_ffff
                && monitor.position.x + 520 <= 0x7fff_ffff
        }),
    ensures
        ({
            let monitor = if current is Some {
                current->0
            } else {
                primary->0
            };
            let asked = SplitViewState::requested(true, epoch).after(Ok(())).after(Ok(()));
            let flow = asked.after_monitor(current).after_monitor(primary).flow;
            let opened = desk.performed(flow.pending);
            let half = monitor.size.width as int / 2;
            &&& flow.verdict == Ok::<Reply, Seq<char>>(Reply::Done)
            &&& opened == (Desk {
                main: Pane {
                    visible: true,
                    place: Place::At(monitor.position),
                    size: opened.main.size,
                    ..desk.main
                },
                chat: Pane {
                    visible: true,
                    place: opened.chat.place,
                    size: opened.chat.size,
                    ..desk.chat
                },
                focus: Window::Main,
                tasks: desk.tasks.push(Task::Reveal(epoch)),
                ..desk
            })
            &&& opened.chat.place matches Place::At(place)
            &&& place.x == monitor.position.x + opened.main.size.width
            &&& place.y == monitor.position.y
            &&& half >= 520 ==> opened.main.size.width == half && opened.chat.size.width
                == monitor.size.width - half
            &&& half < 520 ==> opened.main.size.width == 520 && opened.chat.size.width == 520
            &&& opened.chat.size.height == opened.main.size.height
            &&& monitor.size.height >= 656 ==> opened.main.size.height == monitor.size.height - 36
            &&& monitor.size.height < 656 ==> opened.main.size.height == 620
        }),
{
    let monitor = if current is Some {
        current->0
    } else {
        primary->0
    };
    layout_is_what_is_arranged(split::layout_on(monitor), epoch, desk);
    split::current_monitor_comes_first(epoch, current, primary);
    split::windows_lie_side_by_side(monitor);
}

/// There is room on a monitor if and only if the left edge of the chat window, half the
/// monitor or 520 pixels from its own, can be written.
pub proof fn room_is_for_the_left_edge(monitor: Monitor)
    ensures
        split::has_room(monitor) <==> monitor.position.x + 520 <= 0x7fff_ffff
            && monitor.position.x + monitor.size.width as int / 2 <= 0x7fff_ffff,
{
}

/// A request to open the split view looks both windows up and asks for both monitors, in this
/// order, and changes nothing meanwhile. Where a window is missing or a monitor cannot be
/// asked for, or there is none, the answer is an error and nothing has been changed.
pub proof fn opening_asks_before_it_arranges(
    epoch: u64,
    current: Option<Monitor>,
    primary: Option<Monitor>,
    words: Seq<char>,
    desk: Desk,
)
    ensures
        ({
            let made = SplitViewState::requested(true, epoch);
            let found = made.after(Ok(()));
            let asked = found.after(Ok(()));
            let once = asked.after_monitor(current);
            &&& desk.performed(made.flow.pending) == desk
            &&& made.flow.pending.len() == 4
            &&& made.flow.pending[0].action == ActionView::Find(Window::Main)
            &&& made.flow.pending[1].action == ActionView::Find(Window::Chat)
            &&& asked.flow.pending[0].action == ActionView::CurrentMonitor
            &&& once.flow.pending[0].action == ActionView::PrimaryMonitor
            &&& turns_down(made.after(Err(words)).flow, "未找到 Flight 主窗口"@)
            &&& turns_down(found.after(Err(words)).flow, "网页登录窗口尚未创建"@)
            &&& turns_down(asked.after(Err(words)).flow, words)
            &&& turns_down(once.after(Err(words)).flow, words)
            &&& turns_down(
                asked.after_monitor(None).after_monitor(None).flow,
                "未找到可用显示器"@,
            )
            &&& !asked.asks_last()
            &&& once.asks_last()
            &&& once.choice(primary) == if current is Some {
                current
            } else {
                primary
            }
        }),
{
    four_performed(desk, SplitViewState::requested(true, epoch).flow.pending);
}

/// Closing the split view brings the main window back, centred and 1240 by 840 pixels large,
/// with the focus; the chat window is left to a task in the background.
pub proof fn split_view_is_closed(epoch: u64, words: Seq<char>, desk: Desk)
    ensures
        ({
            let made = SplitViewState::requested(false, epoch);
            let steps = made.flow.pending;
            &&& leads(
                made.flow,
                desk,
                Desk {
                    main: Pane {
                        visible: true,
                        place: Place::Centred,
                        size: Size { width: 1240, height: 840 },
                        ..desk.main
                    },
                    focus: Window::Main,
                    tasks: desk.tasks.push(Task::Hide(epoch)),
                    ..desk
                },
            )
            &&& steps[0].action == ActionView::Find(Window::Main)
            &&& steps[1].action == ActionView::Find(Window::Chat)
            &&& steps.last().action == ActionView::HideLater(epoch)
            &&& turns_down(made.after(Err(words)).flow, "未找到 Flight 主窗口"@)
            &&& turns_down(made.after(Ok(())).after(Err(words)).flow, "网页登录窗口尚未创建"@)
            &&& forall|i: int|
                2 <= i < steps.len() ==> (#[trigger] steps[i]).failure == FailureView::Verbatim
        }),
{
    seven_performed(desk, SplitViewState::requested(false, epoch).flow.pending);
}

/// While its request is the latest, a task shows the chat window three times, after waits of
/// 150, 600 and 1200 milliseconds, and then never again.
pub proof fn latest_task_shows_three_times(epoch: u64, waits: nat)
    ensures
        ({
            let task = RevealView { epoch, round: 0 }.woken_by(Seq::new(waits, |i: int| epoch));
            &&& task.shows(epoch) <==> waits < 3
            &&& task.is_waiting() <==> waits < 3
            &&& waits < 3 ==> split::reveal_delays()[task.round] == if waits == 0 {
                150
            } else if waits == 1 {
                600
            } else {
                1200u64
            }
        }),
{
    woken_while_latest(epoch, 0, waits);
}

proof fn woken_while_latest(epoch: u64, round: int, waits: nat)
    requires
        0 <= round <= 3,
    ensures
        ({
            let task = RevealView { epoch, round }.woken_by(Seq::new(waits, |i: int| epoch));
            task.epoch == epoch && task.round == if round + waits < 3 {
                round + waits
            } else {
                3
            }
        }),
    decreases waits,
{
    if waits > 0 {
        let next = if round < 3 {
            round + 1
        } else {
            3
        };
        let fewer = (waits - 1) as nat;
        woken_while_latest(epoch, next, fewer);
        assert(Seq::new(waits, |i: int| epoch).drop_first() =~= Seq::new(fewer, |i: int| epoch));
    }
}

/// A task whose wait ends while another request is the latest neither shows the window nor
/// waits again.
pub proof fn task_of_another_request_ends(task: RevealView, latest: u64)
    requires
        task.epoch != latest,
    ensures
        !task.shows(latest),
        !task.woken(latest).is_waiting(),
{
}

/// Every outcome that is reported to a request for the split view goes to its flow, and what
/// is found first as a monitor stays; only the answer to the last question has the windows
/// arranged, and its number never changes.
pub proof fn split_request_follows_its_flow(
    request: SplitViewState,
    outcome: Result<(), Seq<char>>,
    found: Option<Monitor>,
)
    ensures
        request.after(outcome).flow == request.flow.after(outcome),
        request.after(outcome).chosen == request.chosen,
        request.after(outcome).epoch == request.epoch,
        request.after_monitor(found).epoch == request.epoch,
        request.chosen is Some ==> request.after_monitor(found).chosen == request.chosen,
        request.chosen is None ==> request.after_monitor(found).chosen == found,
        request.flow.pending.len() == 0 || request.flow.pending[0].action
            != ActionView::PrimaryMonitor ==> request.after_monitor(found).flow
            == request.flow.after(Ok(())),
        request.chosen is None && found is None ==> request.after_monitor(found).flow
            == request.flow.after(Ok(())),
{
}

} // verus!
