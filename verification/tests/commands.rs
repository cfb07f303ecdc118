use flight_chat::address::{arrive, open_page};
use flight_chat::commands::{
    clear_command_selection, enter_flight_mode, exit_flight_mode, export_cookies, import_cookies,
    load_conversation_list, new_conversation, prepare_web_bridge, relay_stream_event,
    select_command_option, select_conversation, send_message, update_command_draft,
    update_command_suffix,
};
use flight_chat::cookies::ImportedCookie;
use flight_chat::event::{HistoryMessage, StreamEvent};
use flight_chat::flow::{Flow, Reply};
use flight_chat::host::{Action, Script, Window, STREAM_CHANNEL};
use flight_chat::scripts::ImageAttachment;

type Answer = Result<Reply, String>;

/// Performs a flow in which the action at `failing` fails with the words "broken".
fn perform(mut flow: Flow<Action>, failing: usize) -> (Vec<Action>, Answer) {
    let mut seen = Vec::new();
    while let Some(action) = flow.action() {
        seen.push(action.clone());
        let outcome = if seen.len() == failing + 1 { Err("broken".to_string()) } else { Ok(()) };
        flow.report(outcome);
    }
    (seen, flow.answer().unwrap())
}

fn all(flow: Flow<Action>) -> (Vec<Action>, Answer) {
    perform(flow, usize::MAX)
}

fn refused(flow: Flow<Action>, text: &str) {
    assert!(flow.action().is_none());
    assert_eq!(flow.answer(), Some(Err(text.to_string())));
}

fn script(text: &str) -> Action {
    Action::Run(Window::Chat, Script::Text(text.to_string()))
}

fn runs(flow: Flow<Action>, text: &str) {
    assert_eq!(all(flow), (vec![Action::Find(Window::Chat), script(text)], Ok(Reply::Done)));
}

fn leads(flow: Flow<Action>, address: &str) {
    let navigate = Action::Navigate(Window::Chat, address.to_string());
    assert_eq!(all(flow), (vec![Action::Find(Window::Chat), navigate], Ok(Reply::Done)));
}

fn cookies(count: usize) -> Vec<ImportedCookie> {
    vec![
        ImportedCookie {
            name: "n".to_string(),
            value: "v".to_string(),
            domain: "chatgpt.com".to_string(),
            path: None,
            expiration_date: None,
            http_only: None,
            secure: None,
            same_site: None,
        };
        count
    ]
}

fn image(name: &str, data_url: &str) -> Option<ImageAttachment> {
    Some(ImageAttachment { name: name.to_string(), data_url: data_url.to_string() })
}

#[test]
fn window_labels() {
    assert_eq!(Window::Main.label(), "main");
    assert_eq!(Window::Chat.label(), "chatgpt-session");
    assert_eq!(STREAM_CHANNEL, "flight://stream");
}

#[test]
fn import_writes_and_reloads() {
    let (seen, answer) = all(import_cookies(cookies(3), true));
    assert_eq!(
        seen,
        vec![
            Action::Find(Window::Chat),
            Action::WriteCookies(cookies(3)),
            Action::Navigate(Window::Chat, "https://chatgpt.com/".to_string()),
        ]
    );
    assert_eq!(answer, Ok(Reply::Count(3)));
    assert_eq!(perform(import_cookies(cookies(1), true), 0).1, Err("请先打开网页登录窗口".to_string()));
    assert_eq!(perform(import_cookies(cookies(1), true), 1).1, Err("broken".to_string()));
    assert_eq!(perform(import_cookies(cookies(1), true), 1).0.len(), 2);
}

#[test]
fn import_refusals() {
    refused(import_cookies(Vec::new(), true), "请选择 1 到 128 条 Cookie");
    refused(import_cookies(cookies(129), false), "请选择 1 到 128 条 Cookie");
    let mut list = cookies(2);
    list[1].domain = "example.com".to_string();
    refused(import_cookies(list, true), "Cookie 格式无效，或包含非 chatgpt.com / openai.com 域");
}

#[test]
fn cookies_on_other_platforms() {
    let (seen, answer) = all(import_cookies(cookies(1), false));
    assert_eq!(seen, vec![Action::Find(Window::Chat)]);
    assert_eq!(answer, Err("当前平台暂不支持原生 Cookie 导入".to_string()));
    let (seen, answer) = all(export_cookies(false));
    assert_eq!(seen, vec![Action::Find(Window::Chat)]);
    assert_eq!(answer, Err("当前平台暂不支持原生 Cookie 导出".to_string()));
    assert_eq!(perform(export_cookies(false), 0).1, Err("请先打开网页登录窗口".to_string()));
}

#[test]
fn export_reads_cookies() {
    let (seen, answer) = all(export_cookies(true));
    assert_eq!(seen, vec![Action::Find(Window::Chat), Action::ReadCookies]);
    assert_eq!(answer, Ok(Reply::Done));
}

#[test]
fn events_are_relayed_as_they_are() {
    let event = StreamEvent {
        kind: "history".to_string(),
        text: None,
        conversation_id: Some("c-1".to_string()),
        title: None,
        error: None,
        messages: Some(vec![HistoryMessage { role: "user".to_string(), text: "嗨".to_string() }]),
    };
    assert_eq!(all(relay_stream_event(event.clone())), (vec![Action::Emit(event)], Ok(Reply::Done)));
}

#[test]
fn entering_flight_mode() {
    let (seen, answer) = all(enter_flight_mode(Some(42)));
    let active = StreamEvent {
        kind: "flight_active".to_string(),
        text: None,
        conversation_id: None,
        title: None,
        error: None,
        messages: None,
    };
    assert_eq!(
        seen,
        vec![
            Action::Find(Window::Chat),
            Action::Run(Window::Chat, Script::Bridge),
            script("window.__flightChat?.loadHistory?.(42);"),
            Action::Hide(Window::Chat),
            Action::Find(Window::Main),
            Action::Show(Window::Main),
            Action::Focus(Window::Main),
            Action::Emit(active),
        ]
    );
    assert_eq!(answer, Ok(Reply::Done));
}

#[test]
fn entering_flight_mode_can_fail_anywhere() {
    let told = [
        "请先打开网页登录窗口并完成登录",
        "无法初始化网页消息桥接：broken",
        "无法读取当前会话历史：broken",
        "broken",
        "未找到 Flight 主窗口",
        "broken",
        "broken",
        "broken",
    ];
    for (failing, told) in told.iter().enumerate() {
        let (seen, answer) = perform(enter_flight_mode(None), failing);
        assert_eq!(seen.len(), failing + 1);
        assert_eq!(answer, Err(told.to_string()));
    }
}

#[test]
fn history_limits() {
    for (limit, text) in [(None, "5"), (Some(1), "1"), (Some(10), "10"), (Some(100), "100")] {
        let (seen, _) = all(enter_flight_mode(limit));
        assert_eq!(seen[2], script(&format!("window.__flightChat?.loadHistory?.({text});")));
    }
    for limit in [0, 101, usize::MAX] {
        refused(enter_flight_mode(Some(limit)), "历史回显条数需要在 1 到 100 之间");
    }
}

#[test]
fn ended_flow_ignores_reports() {
    let mut flow = enter_flight_mode(Some(0));
    flow.report(Ok(()));
    flow.report(Err("late".to_string()));
    refused(flow, "历史回显条数需要在 1 到 100 之间");
}

#[test]
fn preparing_and_leaving() {
    let bridge = Action::Run(Window::Chat, Script::Bridge);
    assert_eq!(
        all(prepare_web_bridge()),
        (vec![Action::Find(Window::Chat), bridge.clone()], Ok(Reply::Done))
    );
    assert_eq!(perform(prepare_web_bridge(), 1).1, Err("无法初始化网页消息桥接：broken".to_string()));
    let leaving = vec![
        Action::Find(Window::Chat),
        Action::Show(Window::Chat),
        Action::Focus(Window::Chat),
        bridge,
    ];
    assert_eq!(all(exit_flight_mode()), (leaving, Ok(Reply::Done)));
    assert_eq!(perform(exit_flight_mode(), 0).1, Err("网页登录窗口尚未创建".to_string()));
    assert_eq!(perform(exit_flight_mode(), 3).1, Err("无法恢复网页控制按钮：broken".to_string()));
}

#[test]
fn conversations() {
    leads(new_conversation(), "https://chatgpt.com/");
    leads(select_conversation(" 6a-B9 \n"), "https://chatgpt.com/c/6a-B9");
    leads(select_conversation(&"x".repeat(128)), &format!("https://chatgpt.com/c/{}", "x".repeat(128)));
    runs(load_conversation_list(), "window.__flightChat?.loadConversationList?.();");
    for id in ["", "  ", "a b", "a/b", "a.b", "a_b", "ä", "..", "a?b", &"x".repeat(129)] {
        refused(select_conversation(id), "会话标识无效");
    }
}

#[test]
fn pages_are_normalised() {
    leads(open_page("HTTPS://ChatGPT.com"), "https://chatgpt.com/");
    leads(open_page("https://chatgpt.com/c/../x y"), "https://chatgpt.com/x%20y");
    leads(open_page("https://chatgpt.com//c//-Z9-//"), "https://chatgpt.com//c//-Z9-//");
    let (seen, answer) = all(open_page("chatgpt.com"));
    assert_eq!(seen, vec![Action::Find(Window::Chat)]);
    assert_eq!(answer, Err("relative URL without a base".to_string()));
}

#[test]
fn arriving_without_an_address() {
    let flow = arrive(Vec::new(), Err("no".to_string()), Reply::Done);
    refused(flow, "no");
    let flow = arrive(Vec::new(), Ok("https://a/".to_string()), Reply::Count(2));
    let navigate = Action::Navigate(Window::Chat, "https://a/".to_string());
    assert_eq!(all(flow), (vec![navigate], Ok(Reply::Count(2))));
}

#[test]
fn messages() {
    let expected = "\n          (() => {\n            const bridge = window.__flightChat;\n            if (!bridge?.send) {\n              window.__TAURI__?.core?.invoke('relay_stream_event', { payload: { kind: 'error', error: '网页桥接尚未就绪，请先执行测试发送。' } });\n              return;\n            }\n            Promise.resolve(bridge.send(\"say \\\"hi\\\"\", null, false)).catch((error) => {\n              window.__TAURI__?.core?.invoke('relay_stream_event', { payload: { kind: 'error', error: String(error?.message || error) } });\n            });\n          })();\n        ";
    runs(send_message("\t say \"hi\" ", &None, None), expected);
    let kept = expected.replace("null, false", "null, true");
    runs(send_message("say \"hi\"", &None, Some(true)), &kept);
    runs(send_message("say \"hi\"", &None, Some(false)), expected);
    let pictured = expected.replace(
        "\"say \\\"hi\\\"\", null, false",
        "\"\", {\"name\":\"a\\\\b.png\",\"dataUrl\":\"data:image/png;base64,AA==\"}, false",
    );
    runs(send_message(" ", &image("a\\b.png", "data:image/png;base64,AA=="), None), &pictured);
}

#[test]
fn message_refusals() {
    let none = None;
    refused(send_message("", &none, None), "消息或图片不能为空");
    refused(send_message(" \u{3000}\n", &none, Some(true)), "消息或图片不能为空");
    refused(send_message(&"字".repeat(40_001), &none, None), "单条消息不能超过 40,000 个字符");
    assert!(send_message(&"字".repeat(40_000), &none, None).action().is_some());
    assert!(send_message(&format!(" {} ", "x".repeat(40_000)), &none, None).action().is_some());
    let bad = "图片格式无效或超过 10MB";
    refused(send_message("x", &image("a", "data:text/plain,x"), None), bad);
    refused(send_message("x", &image("a", "data:image"), None), bad);
    refused(send_message("x", &image("a", ""), None), bad);
    refused(send_message("x", &image(&"n".repeat(241), "data:image/png,"), None), bad);
    assert!(send_message("x", &image(&"n".repeat(240), "data:image/"), None).action().is_some());
    let limit = 14 * 1024 * 1024;
    let data = format!("data:image/{}", "A".repeat(limit - 11));
    assert!(send_message("x", &image("a", &data), None).action().is_some());
    refused(send_message("x", &image("a", &format!("{data}A")), None), bad);
    // The length of the text is judged before the image.
    refused(
        send_message(&"x".repeat(40_001), &image("a", ""), None),
        "单条消息不能超过 40,000 个字符",
    );
}

#[test]
fn command_drafts() {
    runs(update_command_draft(" @file "), "window.__flightChat?.updateCommandDraft?.(\"@file\");");
    runs(update_command_draft("/"), "window.__flightChat?.updateCommandDraft?.(\"/\");");
    let text = "命令草稿必须以 @ 或 / 开头，且不超过 240 个字符";
    refused(update_command_draft(""), text);
    refused(update_command_draft("file"), text);
    refused(update_command_draft(&format!("@{}", "字".repeat(240))), text);
    assert!(update_command_draft(&format!("@{}", "字".repeat(239))).action().is_some());
}

#[test]
fn command_options() {
    runs(
        select_command_option(" 搜索\n网页 "),
        "window.__flightChat?.selectCommandOption?.(\"搜索\\n网页\");",
    );
    refused(select_command_option("  "), "命令候选内容无效");
    refused(select_command_option(&"x".repeat(241)), "命令候选内容无效");
    assert!(select_command_option(&"x".repeat(240)).action().is_some());
}

#[test]
fn command_texts() {
    runs(update_command_suffix(" x "), "window.__flightChat?.updateCommandSuffix?.(\" x \");");
    runs(clear_command_selection(""), "window.__flightChat?.clearCommandSelection?.(\"\");");
    let text = "命令后的文字不能超过 40,000 个字符";
    refused(update_command_suffix(&"字".repeat(40_001)), text);
    refused(clear_command_selection(&"字".repeat(40_001)), text);
    assert!(update_command_suffix(&"字".repeat(40_000)).action().is_some());
    assert!(clear_command_selection(&"字".repeat(40_000)).action().is_some());
    assert_eq!(perform(update_command_suffix("x"), 0).1, Err("网页登录窗口尚未创建".to_string()));
}
