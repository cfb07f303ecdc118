use flight_chat::json::literal;
use flight_chat::scripts::{
    export_failure_script, export_outcome_script, export_script, history_script, image_literal, text_script,
    ImageAttachment,
};
use flight_chat::text::{
    bytes_of, characters, decimal_text, ends_with, equals, leading_dots, lowercase_from,
    starts_with, trim,
};

#[test]
fn literals() {
    assert_eq!(literal(""), "\"\"");
    assert_eq!(literal("a\"b\\c/d"), "\"a\\\"b\\\\c/d\"");
    assert_eq!(literal("\u{8}\t\n\u{c}\r"), "\"\\b\\t\\n\\f\\r\"");
    assert_eq!(literal("\0\u{1f}\u{b}"), "\"\\u0000\\u001f\\u000b\"");
    assert_eq!(literal("\u{7f}\u{2028}字😀'"), "\"\u{7f}\u{2028}字😀'\"");
}

#[test]
fn literals_read_back() {
    for code in 0..0x300u32 {
        let text = format!("x{}\"y", char::from_u32(code).unwrap());
        let json = literal(&text);
        assert_eq!(serde_json::from_str::<String>(&json).unwrap(), text);
        assert!(json.chars().all(|c| c >= ' '));
    }
}

#[test]
fn images_read_back() {
    assert_eq!(image_literal(&None), "null");
    let image = ImageAttachment {
        name: "a\"b.png".to_string(),
        data_url: "data:image/png;base64,AA==".to_string(),
    };
    let json = image_literal(&Some(image));
    assert_eq!(json, "{\"name\":\"a\\\"b.png\",\"dataUrl\":\"data:image/png;base64,AA==\"}");
    let value: serde_json::Value = serde_json::from_str(&json).unwrap();
    assert_eq!(value["name"], "a\"b.png");
    assert_eq!(value["dataUrl"], "data:image/png;base64,AA==");
}

#[test]
fn scripts_for_the_page() {
    assert_eq!(history_script(7), "window.__flightChat?.loadHistory?.(7);");
    assert_eq!(text_script("f", "x\ny"), "window.__flightChat?.f?.(\"x\\ny\");");
    assert_eq!(export_script("[]"), "window.__flightChat?.completeCookieExport?.([]);");
    assert_eq!(
        export_failure_script("失败\"1\""),
        "window.__flightChat?.failCookieExport?.(\"失败\\\"1\\\"\");"
    );
}

#[test]
fn script_after_an_export() {
    assert_eq!(
        export_outcome_script(Ok("[{\"name\":\"a\"}]".to_string())),
        "window.__flightChat?.completeCookieExport?.([{\"name\":\"a\"}]);"
    );
    assert_eq!(
        export_outcome_script(Err("a\nb".to_string())),
        "window.__flightChat?.failCookieExport?.(\"a\\nb\");"
    );
}

#[test]
fn trimming_is_that_of_std() {
    for code in 0..=0x10ffffu32 {
        if let Some(c) = char::from_u32(code) {
            let text = format!("{c}a{c}");
            assert_eq!(trim(&text), text.trim(), "{code:x}");
        }
    }
    assert_eq!(trim(""), "");
    assert_eq!(trim(" \n "), "");
    assert_eq!(trim(trim("  a b  ")), "a b");
}

#[test]
fn decimals() {
    for n in [0, 1, 9, 10, 19, 99, 100, 101, 1_234_567_890, usize::MAX] {
        assert_eq!(decimal_text(n), n.to_string());
    }
}

#[test]
fn lower_case() {
    let list = characters("..AbZ[@Äß1");
    assert_eq!(leading_dots(&list), 2);
    assert_eq!(lowercase_from(&list, 2).into_iter().collect::<String>(), "abz[@Äß1");
    assert_eq!(lowercase_from(&list, list.len()), Vec::<char>::new());
    assert_eq!(leading_dots(&characters("")), 0);
}

#[test]
fn parts_of_a_text() {
    let list = characters("字abc");
    assert!(equals(&list, "字abc"));
    assert!(!equals(&list, "字ab"));
    assert!(!equals(&list, "字abd"));
    assert!(ends_with(&list, "bc"));
    assert!(ends_with(&list, ""));
    assert!(!ends_with(&list, "x字abc"));
    assert!(starts_with("字abc", "字a"));
    assert!(!starts_with("字abc", "a"));
    assert!(!starts_with("字", "字a"));
    assert_eq!(bytes_of("字a"), 4);
}
