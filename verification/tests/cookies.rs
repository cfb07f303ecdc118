use flight_chat::cookies::{
    check_import, finite_bits, import_failure, import_report, is_openai_cookie_domain, non_negative_bits,
    write_cookies, CookieCall, ImportedCookie, SameSite,
};
use flight_chat::export::{
    export_cookie, read_failure, CookieDetails, CookieExport, CookieHead, ExportedCookie, Question,
};
use flight_chat::flow::{Flow, Reply};
use flight_chat::refusal::Refusal;

fn cookie(name: &str, value: &str, domain: &str) -> ImportedCookie {
    ImportedCookie {
        name: name.to_string(),
        value: value.to_string(),
        domain: domain.to_string(),
        path: None,
        expiration_date: None,
        http_only: None,
        secure: None,
        same_site: None,
    }
}

fn head(name: &str, domain: &str) -> CookieHead {
    CookieHead { name: name.to_string(), value: "v".to_string(), domain: domain.to_string() }
}

fn details(expires: f64, session: bool, same_site: SameSite) -> CookieDetails {
    CookieDetails {
        path: "/p".to_string(),
        http_only: true,
        secure: false,
        session,
        expires: expires.to_bits(),
        same_site,
    }
}

fn calls(mut flow: Flow<CookieCall>) -> (Vec<CookieCall>, Result<Reply, String>) {
    let mut seen = Vec::new();
    while let Some(call) = flow.action() {
        seen.push(call.clone());
        flow.report(Ok(()));
    }
    (seen, flow.answer().unwrap())
}

#[test]
fn accepted_domains() {
    for domain in [
        "chatgpt.com",
        ".chatgpt.com",
        "...chatgpt.com",
        "auth.chatgpt.com",
        "a.b.chatgpt.com",
        "openai.com",
        ".openai.com",
        "auth0.openai.com",
        " \t.ChatGPT.COM\n",
        "OPENAI.com\u{3000}",
        "x .openai.com",
        ". .openai.com",
    ] {
        assert!(is_openai_cookie_domain(domain), "{domain}");
    }
}

#[test]
fn foreign_domains() {
    for domain in [
        "",
        ".",
        "com",
        "notchatgpt.com",
        "chatgpt.com.example.org",
        "chatgpt.com.",
        "openai.org",
        "evilopenai.com",
        ". chatgpt.com",
        "chatgpt .com",
        "chatgpt\u{ff0e}com",
    ] {
        assert!(!is_openai_cookie_domain(domain), "{domain}");
    }
}

#[test]
fn domains_are_judged_as_std_would() {
    let reference = |domain: &str| {
        let host = domain.trim().trim_start_matches('.').to_ascii_lowercase();
        host == "chatgpt.com"
            || host.ends_with(".chatgpt.com")
            || host == "openai.com"
            || host.ends_with(".openai.com")
    };
    for code in 0..=0x3100u32 {
        if let Some(c) = char::from_u32(code) {
            for domain in [
                format!("{c}openai.com"),
                format!("openai.com{c}"),
                format!("{c}.chatgpt.com{c}"),
                format!("open{c}i.com"),
                format!("OPEN{c}I.COM"),
            ] {
                assert_eq!(is_openai_cookie_domain(&domain), reference(&domain), "{domain:?}");
            }
        }
    }
}

#[test]
fn space_dots_and_labels() {
    for domain in ["chatgpt.com", "a.OpenAI.com", ".chatgpt.com", "example.com", "", "xopenai.com"] {
        let accepted = is_openai_cookie_domain(domain);
        for space in ["", " ", "\t\u{3000}\n"] {
            assert_eq!(is_openai_cookie_domain(&format!("{space}{domain}{space}{space}")), accepted);
        }
        for dots in ["", ".", "....."] {
            assert_eq!(is_openai_cookie_domain(&format!("{dots}{domain}")), accepted);
        }
        for label in ["", "x", " x", "..", "x.y", " "] {
            assert!(!accepted || is_openai_cookie_domain(&format!("{label}.{domain}")));
        }
    }
    assert!(is_openai_cookie_domain(" a.chatgpt.com"));
    assert!(is_openai_cookie_domain("x. a.chatgpt.com"));
    assert!(is_openai_cookie_domain(".. .chatgpt.com"));
    assert!(is_openai_cookie_domain(" chatgpt.com"));
    assert!(!is_openai_cookie_domain(". chatgpt.com"));
    assert!(!is_openai_cookie_domain("x. chatgpt.com"));
}

#[test]
fn import_is_reported_where_it_failed() {
    assert!(import_report(&Ok(Reply::Done)).is_none());
    let event = import_report(&Err("gone".to_string())).unwrap();
    assert_eq!(event, import_failure("gone"));
    assert_ne!(event, import_failure(""));
}

#[test]
fn import_takes_one_to_128_cookies() {
    let one = cookie("n", "v", "chatgpt.com");
    assert_eq!(check_import(&Vec::new()), Some(Refusal::CookieCount));
    assert_eq!(check_import(&vec![one.clone()]), None);
    assert_eq!(check_import(&vec![one.clone(); 128]), None);
    assert_eq!(check_import(&vec![one; 129]), Some(Refusal::CookieCount));
}

#[test]
fn import_judges_every_cookie() {
    let good = cookie("n", "v", "chatgpt.com");
    let bad = Some(Refusal::CookieFormat);
    assert_eq!(check_import(&vec![good.clone(), cookie("", "v", "chatgpt.com")]), bad);
    assert_eq!(check_import(&vec![good.clone(), cookie("n", "v", "example.com")]), bad);
    assert_eq!(check_import(&vec![cookie("n", &"x".repeat(16_385), "openai.com"), good]), bad);
    assert_eq!(check_import(&vec![cookie("n", &"x".repeat(16_384), "openai.com")]), None);
    // The value is measured in bytes.
    assert_eq!(check_import(&vec![cookie("n", &"字".repeat(5_462), "openai.com")]), bad);
    assert_eq!(check_import(&vec![cookie("n", &"字".repeat(5_461), "openai.com")]), None);
    assert_eq!(check_import(&vec![cookie("n", "", "openai.com")]), None);
}

#[test]
fn bare_cookie_is_written_for_the_whole_site() {
    let (seen, answer) = calls(write_cookies(&vec![cookie("n", "v", "openai.com")]));
    assert_eq!(
        seen,
        vec![
            CookieCall::Open,
            CookieCall::Create {
                name: "n".to_string(),
                value: "v".to_string(),
                domain: "openai.com".to_string(),
                path: "/".to_string(),
            },
            CookieCall::AddOrUpdate,
        ]
    );
    assert_eq!(answer, Ok(Reply::Done));
}

#[test]
fn full_cookies_are_written_in_order() {
    let mut first = cookie("a", "1", ".chatgpt.com");
    first.path = Some("/x".to_string());
    first.expiration_date = Some(1.5f64.to_bits());
    first.http_only = Some(true);
    first.secure = Some(false);
    first.same_site = Some("STRICT".to_string());
    let mut second = cookie("b", "2", "openai.com");
    second.expiration_date = Some(f64::NAN.to_bits());
    second.same_site = Some("no_restriction".to_string());
    let (seen, _) = calls(write_cookies(&vec![first, second]));
    assert_eq!(
        seen,
        vec![
            CookieCall::Open,
            CookieCall::Create {
                name: "a".to_string(),
                value: "1".to_string(),
                domain: ".chatgpt.com".to_string(),
                path: "/x".to_string(),
            },
            CookieCall::SetExpires(1.5f64.to_bits()),
            CookieCall::SetHttpOnly(true),
            CookieCall::SetSecure(false),
            CookieCall::SetSameSite(SameSite::Strict),
            CookieCall::AddOrUpdate,
            CookieCall::Create {
                name: "b".to_string(),
                value: "2".to_string(),
                domain: "openai.com".to_string(),
                path: "/".to_string(),
            },
            CookieCall::SetSameSite(SameSite::NoRestriction),
            CookieCall::AddOrUpdate,
        ]
    );
}

#[test]
fn writing_stops_at_the_first_failure() {
    let list = vec![cookie("a", "1", "openai.com"), cookie("b", "2", "openai.com")];
    let mut flow = write_cookies(&list);
    flow.report(Ok(()));
    flow.report(Err("0x80070057".to_string()));
    assert!(flow.action().is_none());
    let words = flow.answer().unwrap().unwrap_err();
    assert_eq!(words, "0x80070057");
    let event = import_failure(&words);
    assert_eq!(event.kind, "error");
    assert_eq!(event.error.as_deref(), Some("Cookie 导入失败：0x80070057"));
    assert_eq!(event.text, None);
    assert_eq!(event.messages, None);
}

#[test]
fn same_site_names() {
    assert_eq!(SameSite::from_name("strict"), SameSite::Strict);
    assert_eq!(SameSite::from_name("Lax"), SameSite::Lax);
    assert_eq!(SameSite::from_name("none"), SameSite::NoRestriction);
    assert_eq!(SameSite::from_name(" lax"), SameSite::NoRestriction);
    assert_eq!(SameSite::from_name("unspecified"), SameSite::NoRestriction);
    for kind in [SameSite::Strict, SameSite::Lax, SameSite::NoRestriction] {
        assert_eq!(SameSite::from_name(kind.name()), kind);
    }
}

#[test]
fn number_bits() {
    for number in [
        0.0,
        -0.0,
        1.0,
        -1.0,
        1.7e9,
        f64::MAX,
        f64::MIN,
        f64::MIN_POSITIVE,
        -f64::MIN_POSITIVE,
        5e-324,
        -5e-324,
        f64::INFINITY,
        f64::NEG_INFINITY,
        f64::NAN,
        -f64::NAN,
    ] {
        assert_eq!(finite_bits(number.to_bits()), number.is_finite(), "{number}");
        if number.is_finite() {
            assert_eq!(non_negative_bits(number.to_bits()), number >= 0.0, "{number}");
        }
    }
}

#[test]
fn exported_dates() {
    let date = |expires: f64, session: bool| {
        export_cookie(head("n", "openai.com"), details(expires, session, SameSite::Lax))
            .expiration_date
            .map(f64::from_bits)
    };
    assert_eq!(date(1_700_000_000.25, false), Some(1_700_000_000.25));
    assert_eq!(date(0.0, false), Some(0.0));
    assert_eq!(date(-0.0, false), Some(0.0));
    assert_eq!(date(-1.0, false), None);
    assert_eq!(date(f64::NAN, false), None);
    assert_eq!(date(f64::INFINITY, false), None);
    assert_eq!(date(1_700_000_000.0, true), None);
}

#[test]
fn export_reads_accepted_cookies_only() {
    let mut export = CookieExport::begin();
    assert_eq!(export.question(), Some(Question::Count));
    export.count(Some(3));
    assert_eq!(export.question(), Some(Question::Head(0)));
    export.offer(head("a", ".ChatGPT.com"));
    assert_eq!(export.question(), Some(Question::Details(0)));
    export.complete(details(2.0, false, SameSite::Strict));
    assert_eq!(export.question(), Some(Question::Head(1)));
    export.offer(head("b", "example.com"));
    assert_eq!(export.question(), Some(Question::Head(2)));
    export.offer(head("c", "openai.com"));
    export.complete(details(-1.0, true, SameSite::NoRestriction));
    assert_eq!(export.question(), None);
    let expected = |name: &str, domain: &str, date: Option<f64>, same_site: &str| ExportedCookie {
        name: name.to_string(),
        value: "v".to_string(),
        domain: domain.to_string(),
        path: "/p".to_string(),
        expiration_date: date.map(f64::to_bits),
        http_only: true,
        secure: false,
        same_site: same_site.to_string(),
    };
    assert_eq!(
        export.finish(),
        Ok(vec![
            expected("a", ".ChatGPT.com", Some(2.0), "strict"),
            expected("c", "openai.com", None, "none"),
        ])
    );
}

#[test]
fn export_without_cookies() {
    for count in [None, Some(0)] {
        let mut export = CookieExport::begin();
        export.count(count);
        assert_eq!(export.question(), None);
        assert_eq!(export.finish(), Ok(Vec::new()));
    }
}

#[test]
fn failed_export() {
    let mut export = CookieExport::begin();
    export.count(Some(2));
    export.offer(head("a", "openai.com"));
    export.complete(details(2.0, false, SameSite::Lax));
    export.fail("gone".to_string());
    export.offer(head("b", "openai.com"));
    assert_eq!(export.question(), None);
    assert_eq!(export.finish(), Err("gone".to_string()));

    let mut export = CookieExport::begin();
    export.fail(read_failure("HRESULT(0x80004005)"));
    assert_eq!(export.finish(), Err("WebView2 读取 Cookie 失败：HRESULT(0x80004005)".to_string()));
}

#[test]
fn exported_cookie_can_be_imported() {
    let exported = export_cookie(head("n", ".openai.com"), details(9.0, false, SameSite::Lax));
    let imported = ImportedCookie {
        name: exported.name,
        value: exported.value,
        domain: exported.domain,
        path: Some(exported.path),
        expiration_date: exported.expiration_date,
        http_only: Some(exported.http_only),
        secure: Some(exported.secure),
        same_site: Some(exported.same_site),
    };
    let list = vec![imported];
    assert_eq!(check_import(&list), None);
    let (seen, _) = calls(write_cookies(&list));
    assert_eq!(
        seen[1..],
        [
            CookieCall::Create {
                name: "n".to_string(),
                value: "v".to_string(),
                domain: ".openai.com".to_string(),
                path: "/p".to_string(),
            },
            CookieCall::SetExpires(9.0f64.to_bits()),
            CookieCall::SetHttpOnly(true),
            CookieCall::SetSecure(false),
            CookieCall::SetSameSite(SameSite::Lax),
            CookieCall::AddOrUpdate,
        ]
    );
}
