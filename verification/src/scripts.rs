//! The scripts that the commands run in the web page.

use vstd::prelude::*;

use crate::json;
use crate::text;

verus! {

/// The beginning of the script that sends a message, up to the message itself.
pub const SEND_HEAD: &'static str = r#"
          (() => {
            const bridge = window.__flightChat;
            if (!bridge?.send) {
              window.__TAURI__?.core?.invoke('relay_stream_event', { payload: { kind: 'error', error: '网页桥接尚未就绪，请先执行测试发送。' } });
              return;
            }
            Promise.resolve(bridge.send("#;

/// The end of the script that sends a message, after the last argument.
pub const SEND_TAIL: &'static str = r#")).catch((error) => {
              window.__TAURI__?.core?.invoke('relay_stream_event', { payload: { kind: 'error', error: String(error?.message || error) } });
            });
          })();
        "#;

/// The script that asks the bridge for the list of conversations.
pub const LOAD_LIST: &'static str = "window.__flightChat?.loadConversationList?.();";

/// An image to send along with a message: its name, and its data as a data URL.
#[derive(Clone, Debug, PartialEq, Eq)]
pub struct ImageAttachment {
    pub name: String,
    pub data_url: String,
}

/// What an `ImageAttachment` stands for.
#[verifier::ext_equal]
pub struct ImageView {
    pub name: Seq<char>,
    pub data_url: Seq<char>,
}

impl View for ImageAttachment {
    type V = ImageView;

    open spec fn view(&self) -> ImageView {
        ImageView { name: self.name@, data_url: self.data_url@ }
    }
}

/// What an optional image stands for.
pub open spec fn image_view(image: Option<ImageAttachment>) -> Option<ImageView> {
    match image {
        Some(image) => Some(image@),
        None => None,
    }
}

/// The script that calls a function of the bridge, where the bridge has it, with `argument`.
pub open spec fn call_of(function: Seq<char>, argument: Seq<char>) -> Seq<char> {
    "window.__flightChat?."@ + function + "?.("@ + argument + ");"@
}

/// The script that calls a function of the bridge, where the bridge has it, with `argument`.
pub fn call_script(function: &str, argument: &str) -> (script: String)
    ensures
        script@ == call_of(function@, argument@),
{
    let mut script = "window.__flightChat?.".to_string();
    script.append(function);
    script.append("?.(");
    script.append(argument);
    script.append(");");
    script
}

/// The script that has the newest `limit` messages of the conversation shown again.
pub fn history_script(limit: usize) -> (script: String)
    ensures
        script@ == call_of("loadHistory"@, text::decimal(limit as nat)),
{
    call_script("loadHistory", text::decimal_text(limit).as_str())
}

/// The script that hands `text` to a function of the bridge.
pub fn text_script(function: &str, text: &str) -> (script: String)
    ensures
        script@ == call_of(function@, json::json_string(text@)),
{
    call_script(function, json::literal(text).as_str())
}

/// The script that hands exported cookies, given as JSON, to the page.
pub fn export_script(cookies: &str) -> (script: String)
    ensures
        script@ == call_of("completeCookieExport"@, cookies@),
{
    call_script("completeCookieExport", cookies)
}

/// The script that tells the page why no cookies were exported.
pub fn export_failure_script(error: &str) -> (script: String)
    ensures
        script@ == call_of("failCookieExport"@, json::json_string(error@)),
{
    text_script("failCookieExport", error)
}

/// The script that follows an export: the exported cookies, given as JSON, are handed to the
/// page, or the page is told why there are none.
pub fn export_outcome_script(outcome: Result<String, String>) -> (script: String)
    ensures
        script@ == match outcome {
            Ok(cookies) => call_of("completeCookieExport"@, cookies@),
            Err(error) => call_of("failCookieExport"@, json::json_string(error@)),
        },
{
    match outcome {
        Ok(cookies) => export_script(cookies.as_str()),
        Err(error) => export_failure_script(error.as_str()),
    }
}

/// An optional image as JSON.
pub open spec fn image_json(image: Option<ImageView>) -> Seq<char> {
    match image {
        Some(image) => "{\"name\":"@ + json::json_string(image.name) + ",\"dataUrl\":"@
            + json::json_string(image.data_url) + "}"@,
        None => "null"@,
    }
}

/// An optional image as JSON.
pub fn image_literal(image: &Option<ImageAttachment>) -> (json: String)
    ensures
        json@ == image_json(image_view(*image)),
{
    match image {
        Some(image) => {
            let mut json = "{\"name\":".to_string();
            json.append(json::literal(image.name.as_str()).as_str());
            json.append(",\"dataUrl\":");
            json.append(json::literal(image.data_url.as_str()).as_str());
            json.append("}");
            json
        },
        None => "null".to_string(),
    }
}

/// A truth value as JavaScript writes it.
pub open spec fn truth(value: bool) -> Seq<char> {
    if value {
        "true"@
    } else {
        "false"@
    }
}

/// The script that sends a message: it calls the bridge with the message, the image and
/// whether the text in the page's composer is to be kept, and relays an error where there
/// is no bridge or the bridge fails.
pub open spec fn send_script_of(
    message: Seq<char>,
    image: Option<ImageView>,
    preserve_composer: bool,
) -> Seq<char> {
    SEND_HEAD@ + json::json_string(message) + ", "@ + image_json(image) + ", "@ + truth(
        preserve_composer,
    ) + SEND_TAIL@
}

/// The script that sends a message.
pub fn send_script(
    message: &str,
    image: &Option<ImageAttachment>,
    preserve_composer: bool,
) -> (script: String)
    ensures
        script@ == send_script_of(message@, image_view(*image), preserve_composer),
{
    let mut script = SEND_HEAD.to_string();
    script.append(json::literal(message).as_str());
    script.append(", ");
    script.append(image_literal(image).as_str());
    script.append(", ");
    script.append(
        if preserve_composer {
            "true"
        } else {
            "false"
        },
    );
    script.append(SEND_TAIL);
    script
}

proof fn same_after(head: Seq<char>, one: Seq<char>, other: Seq<char>)
    requires
        head + one == head + other,
    ensures
        one == other,
{
    assert(one =~= (head + one).skip(head.len() as int));
    assert(other =~= (head + other).skip(head.len() as int));
}

proof fn image_then_rest(
    one: Option<ImageView>,
    one_rest: Seq<char>,
    other: Option<ImageView>,
    other_rest: Seq<char>,
)
    requires
        image_json(one) + one_rest == image_json(other) + other_rest,
    ensures
        one == other,
        one_rest == other_rest,
{
    reveal_strlit("null");
    reveal_strlit("{\"name\":");
    let script = image_json(one) + one_rest;
    assert(script[0] == image_json(one)[0]);
    assert(script[0] == image_json(other)[0]);
    let open = "{\"name\":"@;
    let middle = ",\"dataUrl\":"@;
    let close = "}"@;
    match (one, other) {
        (Some(a), Some(b)) => {
            let a_data = json::json_string(a.data_url) + (close + one_rest);
            let b_data = json::json_string(b.data_url) + (close + other_rest);
            assert(script =~= open + (json::json_string(a.name) + (middle + a_data)));
            assert(script =~= open + (json::json_string(b.name) + (middle + b_data)));
            same_after(
                open,
                json::json_string(a.name) + (middle + a_data),
                json::json_string(b.name) + (middle + b_data),
            );
            json::literal_then_rest(a.name, middle + a_data, b.name, middle + b_data);
            same_after(middle, a_data, b_data);
            json::literal_then_rest(a.data_url, close + one_rest, b.data_url, close + other_rest);
            same_after(close, one_rest, other_rest);
        },
        (None, None) => {
            same_after("null"@, one_rest, other_rest);
        },
        (Some(_), None) => {
            assert(script[0] == '{');
        },
        (None, Some(_)) => {
            assert(script[0] == '{');
        },
    }
}

proof fn regrouped(
    a: Seq<char>,
    b: Seq<char>,
    c: Seq<char>,
    d: Seq<char>,
    e: Seq<char>,
    f: Seq<char>,
    g: Seq<char>,
)
    ensures
        a + b + c + d + e + f + g == a + (b + (c + (d + (e + (f + g))))),
{
    assert(a + b + c + d + e + f + g =~= a + (b + (c + (d + (e + (f + g))))));
}

/// Two requests to send that give the same script are the same request: the script carries
/// the message, the image and the choice without loss.
pub proof fn send_scripts_tell_requests_apart(
    message: Seq<char>,
    image: Option<ImageView>,
    preserve: bool,
    other_message: Seq<char>,
    other_image: Option<ImageView>,
    other_preserve: bool,
)
    requires
        send_script_of(message, image, preserve) == send_script_of(
            other_message,
            other_image,
            other_preserve,
        ),
    ensures
        message == other_message,
        image == other_image,
        preserve == other_preserve,
{
    let last = ", "@ + (truth(preserve) + SEND_TAIL@);
    let other_last = ", "@ + (truth(other_preserve) + SEND_TAIL@);
    let rest = ", "@ + (image_json(image) + last);
    let other_rest = ", "@ + (image_json(other_image) + other_last);
    regrouped(
        SEND_HEAD@,
        json::json_string(message),
        ", "@,
        image_json(image),
        ", "@,
        truth(preserve),
        SEND_TAIL@,
    );
    regrouped(
        SEND_HEAD@,
        json::json_string(other_message),
        ", "@,
        image_json(other_image),
        ", "@,
        truth(other_preserve),
        SEND_TAIL@,
    );
    same_after(
        SEND_HEAD@,
        json::json_string(message) + rest,
        json::json_string(other_message) + other_rest,
    );
    json::literal_then_rest(message, rest, other_message, other_rest);
    same_after(", "@, image_json(image) + last, image_json(other_image) + other_last);
    image_then_rest(image, last, other_image, other_last);
    same_after(", "@, truth(preserve) + SEND_TAIL@, truth(other_preserve) + SEND_TAIL@);
    reveal_strlit("true");
    reveal_strlit("false");
    assert((truth(preserve) + SEND_TAIL@)[0] == truth(preserve)[0]);
    assert((truth(other_preserve) + SEND_TAIL@)[0] == truth(other_preserve)[0]);
}

proof fn same_argument(function: Seq<char>, one: Seq<char>, other: Seq<char>)
    requires
        call_of(function, one) == call_of(function, other),
    ensures
        one == other,
{
    let head = "window.__flightChat?."@ + function + "?.("@;
    let script = call_of(function, one);
    let tail = ");"@;
    assert(one =~= script.subrange(head.len() as int, script.len() - tail.len()));
    assert(other =~= script.subrange(head.len() as int, script.len() - tail.len()));
}

/// A script that hands a text to the bridge carries it without loss: two texts that give
/// the same script are the same text.
pub proof fn text_scripts_tell_texts_apart(function: Seq<char>, one: Seq<char>, other: Seq<char>)
    requires
        call_of(function, json::json_string(one)) == call_of(function, json::json_string(other)),
    ensures
        one == other,
{
    same_argument(function, json::json_string(one), json::json_string(other));
    json::literals_tell_texts_apart(one, other);
}

/// Two numbers that give the same script are the same number.
pub proof fn history_scripts_tell_limits_apart(one: nat, other: nat)
    requires
        call_of("loadHistory"@, text::decimal(one)) == call_of(
            "loadHistory"@,
            text::decimal(other),
        ),
    ensures
        one == other,
{
    same_argument("loadHistory"@, text::decimal(one), text::decimal(other));
    text::decimal_reads_back(one);
    text::decimal_reads_back(other);
}

/// An optional image stands for its name and its data, if it is there.
pub proof fn image_stands_for_its_fields(image: Option<ImageAttachment>)
    ensures
        image_view(image) is Some <==> image is Some,
        image is Some ==> image_view(image)->0.name == image->0.name@,
        image is Some ==> image_view(image)->0.data_url == image->0.data_url@,
{
}

} // verus!
