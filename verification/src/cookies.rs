//! Cookies: which of them are accepted, and how they are written to the web view.

use vstd::prelude::*;

use crate::event::{StreamEvent, StreamEventView};
use crate::flow;
use crate::flow::{Failure, FailureView, Flow, FlowView, Reply, Step, StepView};
use crate::refusal::Refusal;
use crate::text;

verus! {

/// The most cookies that one import takes.
pub const MOST_COOKIES: usize = 128;

/// The most bytes that the value of an imported cookie takes.
pub const MOST_VALUE_BYTES: usize = 16_384;

/// The host that a cookie's domain names: without the space and then the full stops before
/// it, in lower case.
pub open spec fn cookie_host(domain: Seq<char>) -> Seq<char> {
    text::lowered(text::without_leading_dots(text::trimmed(domain)))
}

/// Whether `host` is one of the two accepted sites or lies below one of them.
pub open spec fn is_accepted_host(host: Seq<char>) -> bool {
    ||| host == "chatgpt.com"@
    ||| ".chatgpt.com"@.is_suffix_of(host)
    ||| host == "openai.com"@
    ||| ".openai.com"@.is_suffix_of(host)
}

/// Whether cookies of `domain` are accepted.
pub open spec fn is_accepted_domain(domain: Seq<char>) -> bool {
    is_accepted_host(cookie_host(domain))
}

/// Whether cookies of `domain` are accepted.
pub fn is_openai_cookie_domain(domain: &str) -> (accepted: bool)
    ensures
        accepted == is_accepted_domain(domain@),
{
    let list = text::characters(text::trim(domain));
    let host = text::lowercase_from(&list, text::leading_dots(&list));
    text::equals(&host, "chatgpt.com") || text::ends_with(&host, ".chatgpt.com") || text::equals(
        &host,
        "openai.com",
    ) || text::ends_with(&host, ".openai.com")
}

/// Which requests from other sites carry a cookie.
#[derive(Clone, Copy, Debug, PartialEq, Eq, Structural)]
pub enum SameSite {
    Strict,
    Lax,
    NoRestriction,
}

impl SameSite {
    /// The kind that a text names; what names no kind means no restriction.
    pub open spec fn named(text: Seq<char>) -> SameSite {
        if text::lowered(text) == "strict"@ {
            SameSite::Strict
        } else if text::lowered(text) == "lax"@ {
            SameSite::Lax
        } else {
            SameSite::NoRestriction
        }
    }

    /// The name of the kind.
    pub open spec fn spec_name(self) -> Seq<char> {
        match self {
            SameSite::Strict => "strict"@,
            SameSite::Lax => "lax"@,
            SameSite::NoRestriction => "none"@,
        }
    }

    /// The kind that a text names; what names no kind means no restriction.
    pub fn from_name(text: &str) -> (kind: SameSite)
        ensures
            kind == SameSite::named(text@),
    {
        let list = text::characters(text);
        assert(list@.skip(0) == list@);
        let lower = text::lowercase_from(&list, 0);
        if text::equals(&lower, "strict") {
            SameSite::Strict
        } else if text::equals(&lower, "lax") {
            SameSite::Lax
        } else {
            SameSite::NoRestriction
        }
    }

    /// The name of the kind.
    pub fn name(&self) -> (name: &'static str)
        ensures
            name@ == self.spec_name(),
    {
        match *self {
            SameSite::Strict => "strict",
            SameSite::Lax => "lax",
            SameSite::NoRestriction => "none",
        }
    }
}

/// Whether the binary64 number with these bits is finite: its exponent is not all ones.
pub open spec fn is_finite_bits(bits: u64) -> bool {
    (bits / 0x10_0000_0000_0000) % 0x800 != 0x7ff
}

/// Whether the finite binary64 number with these bits is at least zero: its sign is clear,
/// or it is the negative zero.
pub open spec fn is_non_negative_bits(bits: u64) -> bool {
    bits <= 0x8000_0000_0000_0000
}

/// Whether the binary64 number with these bits is finite.
pub fn finite_bits(bits: u64) -> (finite: bool)
    ensures
        finite == is_finite_bits(bits),
{
    (bits / 0x10_0000_0000_0000) % 0x800 != 0x7ff
}

/// Whether the finite binary64 number with these bits is at least zero.
pub fn non_negative_bits(bits: u64) -> (yes: bool)
    ensures
        yes == is_non_negative_bits(bits),
{
    bits <= 0x8000_0000_0000_0000
}

/// A cookie to import. A date is a binary64 number of seconds, given by its bits.
#[derive(Clone, Debug, PartialEq, Eq)]
pub struct ImportedCookie {
    pub name: String,
    pub value: String,
    pub domain: String,
    pub path: Option<String>,
    pub expiration_date: Option<u64>,
    pub http_only: Option<bool>,
    pub secure: Option<bool>,
    pub same_site: Option<String>,
}

/// What an `ImportedCookie` stands for.
#[verifier::ext_equal]
pub struct ImportedCookieView {
    pub name: Seq<char>,
    pub value: Seq<char>,
    pub domain: Seq<char>,
    pub path: Option<Seq<char>>,
    pub expiration_date: Option<u64>,
    pub http_only: Option<bool>,
    pub secure: Option<bool>,
    pub same_site: Option<Seq<char>>,
}

impl View for ImportedCookie {
    type V = ImportedCookieView;

    open spec fn view(&self) -> ImportedCookieView {
        ImportedCookieView {
            name: self.name@,
            value: self.value@,
            domain: self.domain@,
            path: text::option_view(self.path),
            expiration_date: self.expiration_date,
            http_only: self.http_only,
            secure: self.secure,
            same_site: text::option_view(self.same_site),
        }
    }
}

/// What a list of imported cookies stands for.
pub open spec fn cookies_view(cookies: Seq<ImportedCookie>) -> Seq<ImportedCookieView> {
    cookies.map_values(|cookie: ImportedCookie| cookie@)
}

impl ImportedCookieView {
    /// Whether the cookie may be imported.
    pub open spec fn is_acceptable(self) -> bool {
        &&& self.name.len() > 0
        &&& text::byte_length(self.value) <= MOST_VALUE_BYTES
        &&& is_accepted_domain(self.domain)
    }
}

/// Why an import of `cookies` is turned down, if it is.
pub open spec fn import_refusal(cookies: Seq<ImportedCookieView>) -> Option<Refusal> {
    if !(1 <= cookies.len() <= MOST_COOKIES) {
        Some(Refusal::CookieCount)
    } else if exists|i: int| 0 <= i < cookies.len() && !(#[trigger] cookies[i]).is_acceptable() {
        Some(Refusal::CookieFormat)
    } else {
        None
    }
}

/// Why an import of `cookies` is turned down, if it is.
pub fn check_import(cookies: &Vec<ImportedCookie>) -> (refusal: Option<Refusal>)
    ensures
        refusal == import_refusal(cookies_view(cookies@)),
{
    let ghost list = cookies_view(cookies@);
    if cookies.len() == 0 || cookies.len() > MOST_COOKIES {
        return Some(Refusal::CookieCount);
    }
    let mut i: usize = 0;
    while i < cookies.len()
        invariant
            list == cookies_view(cookies@),
            1 <= cookies@.len() <= MOST_COOKIES,
            forall|j: int| 0 <= j < i ==> (#[trigger] list[j]).is_acceptable(),
        decreases cookies@.len() - i,
    {
        let cookie = &cookies[i];
        assert(list[i as int] == cookie@);
        if cookie.name.as_str().is_empty() || text::bytes_of(cookie.value.as_str())
            > MOST_VALUE_BYTES || !is_openai_cookie_domain(cookie.domain.as_str()) {
            assert(!list[i as int].is_acceptable());
            return Some(Refusal::CookieFormat);
        }
        i += 1;
    }
    None
}

/// A call to the web view's cookie store.
#[derive(Clone, Debug, PartialEq, Eq)]
pub enum CookieCall {
    /// Reach the cookie store.
    Open,
    /// Make a new cookie the current one.
    Create { name: String, value: String, domain: String, path: String },
    /// Set the current cookie's date of expiry, given by its bits.
    SetExpires(u64),
    SetHttpOnly(bool),
    SetSecure(bool),
    SetSameSite(SameSite),
    /// Put the current cookie into the store.
    AddOrUpdate,
}

/// What a `CookieCall` stands for.
#[verifier::ext_equal]
pub enum CookieCallView {
    Open,
    Create { name: Seq<char>, value: Seq<char>, domain: Seq<char>, path: Seq<char> },
    SetExpires(u64),
    SetHttpOnly(bool),
    SetSecure(bool),
    SetSameSite(SameSite),
    AddOrUpdate,
}

impl View for CookieCall {
    type V = CookieCallView;

    open spec fn view(&self) -> CookieCallView {
        match *self {
            CookieCall::Open => CookieCallView::Open,
            CookieCall::Create { name, value, domain, path } => CookieCallView::Create {
                name: name@,
                value: value@,
                domain: domain@,
                path: path@,
            },
            CookieCall::SetExpires(bits) => CookieCallView::SetExpires(bits),
            CookieCall::SetHttpOnly(on) => CookieCallView::SetHttpOnly(on),
            CookieCall::SetSecure(on) => CookieCallView::SetSecure(on),
            CookieCall::SetSameSite(kind) => CookieCallView::SetSameSite(kind),
            CookieCall::AddOrUpdate => CookieCallView::AddOrUpdate,
        }
    }
}

/// The item, if there is one, as a sequence.
pub open spec fn at_most_one<T>(item: Option<T>) -> Seq<T> {
    match item {
        Some(item) => seq![item],
        None => seq![],
    }
}

/// The call that makes one cookie. Without a path the cookie is for the whole site.
pub open spec fn create_call(cookie: ImportedCookieView) -> CookieCallView {
    CookieCallView::Create {
        name: cookie.name,
        value: cookie.value,
        domain: cookie.domain,
        path: match cookie.path {
            Some(path) => path,
            None => "/"@,
        },
    }
}

/// The call that sets a cookie's date of expiry, if it has one and the date is finite.
pub open spec fn expires_call(cookie: ImportedCookieView) -> Option<CookieCallView> {
    match cookie.expiration_date {
        Some(bits) => if is_finite_bits(bits) {
            Some(CookieCallView::SetExpires(bits))
        } else {
            None
        },
        None => None,
    }
}

/// The calls that write one cookie. What is not given is left to the store.
pub open spec fn calls_for(cookie: ImportedCookieView) -> Seq<CookieCallView> {
    seq![create_call(cookie)] + at_most_one(expires_call(cookie)) + at_most_one(
        match cookie.http_only {
            Some(on) => Some(CookieCallView::SetHttpOnly(on)),
            None => None,
        },
    ) + at_most_one(
        match cookie.secure {
            Some(on) => Some(CookieCallView::SetSecure(on)),
            None => None,
        },
    ) + at_most_one(
        match cookie.same_site {
            Some(name) => Some(CookieCallView::SetSameSite(SameSite::named(name))),
            None => None,
        },
    ) + seq![CookieCallView::AddOrUpdate]
}

/// The calls that write `cookies`, one after the other.
pub open spec fn calls_for_all(cookies: Seq<ImportedCookieView>) -> Seq<CookieCallView>
    decreases cookies.len(),
{
    if cookies.len() == 0 {
        seq![CookieCallView::Open]
    } else {
        calls_for_all(cookies.drop_last()) + calls_for(cookies.last())
    }
}

/// The steps that perform `calls`.
pub open spec fn call_steps(calls: Seq<CookieCallView>) -> Seq<StepView<CookieCallView>> {
    calls.map_values(
        |call: CookieCallView| StepView { action: call, failure: FailureView::Verbatim },
    )
}

/// The flow that writes `cookies`.
pub open spec fn write_flow(cookies: Seq<ImportedCookieView>) -> FlowView<CookieCallView> {
    FlowView { pending: call_steps(calls_for_all(cookies)), verdict: Ok(Reply::Done) }
}

proof fn call_steps_join(
    before: Seq<StepView<CookieCallView>>,
    one: Seq<CookieCallView>,
    other: Seq<CookieCallView>,
)
    ensures
        before + call_steps(one) + call_steps(other) == before + call_steps(one + other),
{
    assert(before + call_steps(one) + call_steps(other) =~= before + call_steps(one + other));
}

/// What an optional call stands for.
spec fn option_call_view(call: Option<CookieCall>) -> Option<CookieCallView> {
    match call {
        Some(call) => Some(call@),
        None => None,
    }
}

fn push_call(steps: &mut Vec<Step<CookieCall>>, call: CookieCall)
    ensures
        flow::steps_view(final(steps)@) == flow::steps_view(old(steps)@) + call_steps(seq![call@]),
{
    steps.push(Step { action: call, failure: Failure::Verbatim });
    assert(flow::steps_view(steps@) =~= flow::steps_view(old(steps)@) + call_steps(seq![call@]));
}

fn push_optional_call(steps: &mut Vec<Step<CookieCall>>, call: Option<CookieCall>)
    ensures
        flow::steps_view(final(steps)@) == flow::steps_view(old(steps)@) + call_steps(
            at_most_one(option_call_view(call)),
        ),
{
    match call {
        Some(call) => push_call(steps, call),
        None => {
            assert(flow::steps_view(steps@) =~= flow::steps_view(steps@) + call_steps(seq![]));
        },
    }
}

fn push_calls_for(steps: &mut Vec<Step<CookieCall>>, cookie: &ImportedCookie)
    ensures
        flow::steps_view(final(steps)@) == flow::steps_view(old(steps)@) + call_steps(
            calls_for(cookie@),
        ),
{
    let create = CookieCall::Create {
        name: cookie.name.clone(),
        value: cookie.value.clone(),
        domain: cookie.domain.clone(),
        path: match &cookie.path {
            Some(path) => path.clone(),
            None => "/".to_string(),
        },
    };
    let ghost before = flow::steps_view(steps@);
    let ghost first = seq![create_call(cookie@)];
    assert(create@ == create_call(cookie@));
    push_call(steps, create);
    let expires = match cookie.expiration_date {
        Some(bits) => if finite_bits(bits) {
            Some(CookieCall::SetExpires(bits))
        } else {
            None
        },
        None => None,
    };
    let ghost second = first + at_most_one(option_call_view(expires));
    push_optional_call(steps, expires);
    proof {
        call_steps_join(before, first, at_most_one(option_call_view(expires)));
    }
    let http_only = match cookie.http_only {
        Some(on) => Some(CookieCall::SetHttpOnly(on)),
        None => None,
    };
    let ghost third = second + at_most_one(option_call_view(http_only));
    push_optional_call(steps, http_only);
    proof {
        call_steps_join(before, second, at_most_one(option_call_view(http_only)));
    }
    let secure = match cookie.secure {
        Some(on) => Some(CookieCall::SetSecure(on)),
        None => None,
    };
    let ghost fourth = third + at_most_one(option_call_view(secure));
    push_optional_call(steps, secure);
    proof {
        call_steps_join(before, third, at_most_one(option_call_view(secure)));
    }
    let same_site = match &cookie.same_site {
        Some(name) => Some(CookieCall::SetSameSite(SameSite::from_name(name.as_str()))),
        None => None,
    };
    let ghost fifth = fourth + at_most_one(option_call_view(same_site));
    push_optional_call(steps, same_site);
    proof {
        call_steps_join(before, fourth, at_most_one(option_call_view(same_site)));
    }
    push_call(steps, CookieCall::AddOrUpdate);
    proof {
        call_steps_join(before, fifth, seq![CookieCallView::AddOrUpdate]);
    }
}

/// The flow that writes `cookies` to the web view's cookie store, in their order, up to the
/// first call that fails.
pub fn write_cookies(cookies: &Vec<ImportedCookie>) -> (flow: Flow<CookieCall>)
    ensures
        flow@ == write_flow(cookies_view(cookies@)),
{
    let ghost list = cookies_view(cookies@);
    let mut steps: Vec<Step<CookieCall>> = Vec::new();
    push_call(&mut steps, CookieCall::Open);
    assert(list.take(0) =~= seq![]);
    assert(flow::steps_view(steps@) =~= call_steps(calls_for_all(list.take(0))));
    let mut i: usize = 0;
    while i < cookies.len()
        invariant
            i <= cookies@.len(),
            list == cookies_view(cookies@),
            flow::steps_view(steps@) == call_steps(calls_for_all(list.take(i as int))),
        decreases cookies@.len() - i,
    {
        push_calls_for(&mut steps, &cookies[i]);
        proof {
            let before = list.take(i as int);
            assert(list.take(i + 1).drop_last() =~= before);
            assert(list.take(i + 1).last() == cookies@[i as int]@);
            call_steps_join(seq![], calls_for_all(before), calls_for(cookies@[i as int]@));
            assert(seq![] + call_steps(calls_for_all(before)) =~= call_steps(calls_for_all(before)));
            assert(seq![] + call_steps(calls_for_all(list.take(i + 1))) =~= call_steps(
                calls_for_all(list.take(i + 1)),
            ));
        }
        i += 1;
    }
    assert(list.take(i as int) =~= list);
    Flow::new(steps, Ok(Reply::Done))
}

/// What the main window is told where cookies could not be written.
pub open spec fn failed_import(error: Seq<char>) -> StreamEventView {
    StreamEventView::failure("Cookie 导入失败："@ + error)
}

/// What the main window is told where cookies could not be written.
pub fn import_failure(error: &str) -> (event: StreamEvent)
    ensures
        event@ == failed_import(error@),
        event@ == StreamEventView::failure("Cookie 导入失败："@ + error@),
{
    let mut words = "Cookie 导入失败：".to_string();
    words.append(error);
    StreamEvent::failure(words)
}

/// What the main window is told once the writing of cookies has ended with `answer`: an
/// error if it failed, and nothing if it did not.
pub fn import_report(answer: &Result<Reply, String>) -> (event: Option<StreamEvent>)
    ensures
        event is Some <==> answer is Err,
        answer matches Err(words) ==> event->0@ == StreamEventView::failure(
            "Cookie 导入失败："@ + words@,
        ),
        answer matches Err(words) ==> event->0@ == failed_import(words@),
{
    match answer {
        Ok(_) => None,
        Err(words) => Some(import_failure(words.as_str())),
    }
}

/// A host below an accepted host is accepted.
pub proof fn subhosts_are_accepted(label: Seq<char>, host: Seq<char>)
    requires
        is_accepted_host(host),
    ensures
        is_accepted_host(label + "."@ + host),
{
    reveal_strlit(".");
    reveal_strlit("chatgpt.com");
    reveal_strlit(".chatgpt.com");
    reveal_strlit("openai.com");
    reveal_strlit(".openai.com");
    let below = label + "."@ + host;
    let length = below.len() as int;
    if host == "chatgpt.com"@ {
        assert(".chatgpt.com"@ =~= below.subrange(length - 12, length));
    } else if host == "openai.com"@ {
        assert(".openai.com"@ =~= below.subrange(length - 11, length));
    } else if ".chatgpt.com"@.is_suffix_of(host) {
        assert(host.subrange(host.len() - 12, host.len() as int) =~= below.subrange(
            length - 12,
            length,
        ));
    } else {
        assert(host.subrange(host.len() - 11, host.len() as int) =~= below.subrange(
            length - 11,
            length,
        ));
    }
}

/// Whether a domain is accepted does not depend on the case of its ASCII letters.
pub proof fn case_does_not_matter(domain: Seq<char>)
    ensures
        is_accepted_domain(text::lowered(domain)) == is_accepted_domain(domain),
{
    text::lowering_keeps_trimming(domain);
    text::lowering_keeps_dots(text::trimmed(domain));
    text::lowering_twice(text::without_leading_dots(text::trimmed(domain)));
}

/// White space around a domain does not matter.
pub proof fn space_around_does_not_matter(
    before: Seq<char>,
    domain: Seq<char>,
    after: Seq<char>,
)
    requires
        text::is_space(before),
        text::is_space(after),
    ensures
        is_accepted_domain(before + domain + after) == is_accepted_domain(domain),
{
    text::space_around_is_trimmed(before, domain, after);
}

/// Whether `host` is one of the two accepted sites itself.
pub open spec fn is_site(host: Seq<char>) -> bool {
    host == "chatgpt.com"@ || host == "openai.com"@
}

/// Whether `host` lies below one of the two accepted sites.
pub open spec fn is_below_site(host: Seq<char>) -> bool {
    ".chatgpt.com"@.is_suffix_of(host) || ".openai.com"@.is_suffix_of(host)
}

/// Whether `domain` is one of the two accepted sites itself, with white space before it. A
/// full stop put before such a domain does not stand at the name, so it changes the host.
pub open spec fn is_spaced_site(domain: Seq<char>) -> bool {
    &&& domain.len() > 0
    &&& text::is_white_space(domain[0])
    &&& is_site(text::lowered(text::trimmed(domain)))
}

/// The accepted sites, spelt out.
proof fn sites_spelt_out()
    ensures
        ".chatgpt.com"@ == seq!['.'] + "chatgpt.com"@,
        ".openai.com"@ == seq!['.'] + "openai.com"@,
        "chatgpt.com"@.len() == 11,
        "openai.com"@.len() == 10,
        "chatgpt.com"@[0] == 'c',
        "openai.com"@[0] == 'o',
        forall|i: int|
            0 <= i < ".chatgpt.com"@.len() ==> !text::is_white_space(
                #[trigger] ".chatgpt.com"@[i],
            ),
        forall|i: int|
            0 <= i < ".openai.com"@.len() ==> !text::is_white_space(#[trigger] ".openai.com"@[i]),
{
    reveal_strlit("chatgpt.com");
    reveal_strlit(".chatgpt.com");
    reveal_strlit("openai.com");
    reveal_strlit(".openai.com");
    assert(".chatgpt.com"@ =~= seq!['.'] + "chatgpt.com"@);
    assert(".openai.com"@ =~= seq!['.'] + "openai.com"@);
}

/// A suffix of `tail` is one of `head + tail`.
proof fn suffix_of_longer(suffix: Seq<char>, head: Seq<char>, tail: Seq<char>)
    requires
        suffix.is_suffix_of(tail),
    ensures
        suffix.is_suffix_of(head + tail),
{
    let whole = head + tail;
    assert(suffix =~= whole.subrange(whole.len() - suffix.len(), whole.len() as int));
}

/// A suffix of `head + tail` that is no longer than `tail` is a suffix of `tail`.
proof fn suffix_of_shorter(suffix: Seq<char>, head: Seq<char>, tail: Seq<char>)
    requires
        suffix.is_suffix_of(head + tail),
        suffix.len() <= tail.len(),
    ensures
        suffix.is_suffix_of(tail),
{
    let whole = head + tail;
    assert(suffix =~= tail.subrange(tail.len() - suffix.len(), tail.len() as int)) by {
        assert(suffix =~= whole.subrange(whole.len() - suffix.len(), whole.len() as int));
    }
}

/// The part of `dot_before_host` that is about one of the sites.
proof fn dot_before_one_site(host: Seq<char>, site: Seq<char>)
    ensures
        (seq!['.'] + site).is_suffix_of(seq!['.'] + host) <==> host == site || (seq!['.']
            + site).is_suffix_of(host),
{
    let below = seq!['.'] + site;
    let dotted = seq!['.'] + host;
    if below.is_suffix_of(dotted) {
        if below.len() <= host.len() {
            suffix_of_shorter(below, seq!['.'], host);
        } else {
            assert(dotted.subrange(0, dotted.len() as int) =~= dotted);
            assert(host =~= dotted.drop_first());
            assert(site =~= below.drop_first());
        }
    }
    if host == site {
        assert(below =~= dotted.subrange(0, dotted.len() as int));
    } else if below.is_suffix_of(host) {
        suffix_of_longer(below, seq!['.'], host);
    }
}

/// A full stop before a host does not change whether it is accepted.
proof fn dot_before_host(host: Seq<char>)
    ensures
        is_accepted_host(seq!['.'] + host) == is_accepted_host(host),
{
    sites_spelt_out();
    let dotted = seq!['.'] + host;
    assert(dotted[0] == '.');
    dot_before_one_site(host, "chatgpt.com"@);
    dot_before_one_site(host, "openai.com"@);
}

/// The full stops that a host begins with do not change whether it is accepted.
proof fn dots_before_host(host: Seq<char>)
    ensures
        is_accepted_host(text::without_leading_dots(host)) == is_accepted_host(host),
    decreases host.len(),
{
    if host.len() > 0 && host[0] == '.' {
        dots_before_host(host.drop_first());
        dot_before_host(host.drop_first());
        assert(host =~= seq!['.'] + host.drop_first());
    }
}

/// Whether a domain is accepted can be read off it without leaving out leading full stops.
proof fn accepted_by_trimmed(domain: Seq<char>)
    ensures
        is_accepted_domain(domain) == is_accepted_host(text::lowered(text::trimmed(domain))),
{
    text::lowering_keeps_dots(text::trimmed(domain));
    dots_before_host(text::lowered(text::trimmed(domain)));
}

/// A host that begins with white space is accepted only as one that lies below a site.
proof fn space_before_host(space: Seq<char>, host: Seq<char>)
    requires
        space.len() > 0,
        text::is_space(space),
    ensures
        is_accepted_host(space + host) == is_below_site(host),
{
    sites_spelt_out();
    let whole = space + host;
    assert(whole[0] == space[0]);
    assert forall|suffix: Seq<char>|
        suffix.is_suffix_of(whole) && suffix.len() > host.len() implies exists|i: int|
        0 <= i < suffix.len() && text::is_white_space(#[trigger] suffix[i]) by {
        let i = suffix.len() - host.len() - 1;
        assert(suffix[i] == whole[whole.len() - suffix.len() + i]);
        assert(suffix[i] == space[space.len() - 1]);
    }
    if ".chatgpt.com"@.is_suffix_of(whole) {
        suffix_of_shorter(".chatgpt.com"@, space, host);
    }
    if ".openai.com"@.is_suffix_of(whole) {
        suffix_of_shorter(".openai.com"@, space, host);
    }
    if ".chatgpt.com"@.is_suffix_of(host) {
        suffix_of_longer(".chatgpt.com"@, space, host);
    }
    if ".openai.com"@.is_suffix_of(host) {
        suffix_of_longer(".openai.com"@, space, host);
    }
}

/// The white space before a domain matters only where the domain is a site itself.
proof fn space_before_is_kept(domain: Seq<char>)
    requires
        !is_spaced_site(domain),
    ensures
        is_accepted_host(text::lowered(text::trim_back(domain))) == is_accepted_domain(domain),
{
    accepted_by_trimmed(domain);
    if domain.len() > 0 && text::is_white_space(domain[0]) {
        let inner = text::trim_front(domain);
        text::trim_front_splits(domain);
        let space = domain.take(domain.len() - inner.len());
        assert(domain =~= space + inner);
        if inner.len() > 0 {
            text::trim_back_keeps_front(space, inner);
            let lower = text::lowered(text::trim_back(inner));
            assert(text::lowered(space + text::trim_back(inner)) =~= text::lowered(space) + lower);
            text::lowered_space(space);
            space_before_host(text::lowered(space), lower);
            assert(text::trimmed(domain) == text::trim_back(inner));
        } else {
            assert(domain =~= space);
            text::space_is_trimmed(domain);
        }
    }
}

/// The full stops before a domain do not matter, however many there are, unless they stand
/// before white space and one of the sites itself.
pub proof fn leading_dots_do_not_matter(dots: Seq<char>, domain: Seq<char>)
    requires
        forall|i: int| 0 <= i < dots.len() ==> dots[i] == '.',
        dots.len() == 0 || !is_spaced_site(domain),
    ensures
        is_accepted_domain(dots + domain) == is_accepted_domain(domain),
    decreases dots.len(),
{
    if dots.len() == 0 {
        assert(dots + domain =~= domain);
    } else {
        let rest = dots.drop_first() + domain;
        assert(dots + domain =~= seq!['.'] + rest);
        leading_dots_do_not_matter(dots.drop_first(), domain);
        if dots.len() == 1 {
            assert(rest =~= domain);
        } else {
            assert(rest[0] == dots[1]);
        }
        accepted_by_trimmed(seq!['.'] + rest);
        text::trimming_keeps_head('.', rest);
        let lower = text::lowered(text::trim_back(rest));
        assert(text::lowered(seq!['.'] + text::trim_back(rest)) =~= seq!['.'] + lower);
        dot_before_host(lower);
        space_before_is_kept(rest);
    }
}

/// A domain below an accepted domain is accepted, unless white space and one of the sites
/// itself stand after the full stop.
pub proof fn subdomains_are_accepted(label: Seq<char>, domain: Seq<char>)
    requires
        is_accepted_domain(domain),
        !is_spaced_site(domain),
    ensures
        is_accepted_domain(label + "."@ + domain),
{
    reveal_strlit(".");
    let below = label + "."@ + domain;
    assert(below =~= label + (seq!['.'] + domain));
    let front = text::trim_front(label);
    text::trim_front_keeps_rest(label, seq!['.'] + domain);
    assert(front + (seq!['.'] + domain) =~= front + seq!['.'] + domain);
    text::trimming_keeps_head('.', domain);
    text::trim_back_keeps_front(front, seq!['.'] + domain);
    let lower = text::lowered(text::trim_back(domain));
    assert(text::trim_back(seq!['.'] + domain) == seq!['.'] + text::trim_back(domain));
    assert(text::lowered(front + (seq!['.'] + text::trim_back(domain))) =~= text::lowered(front)
        + "."@ + lower);
    accepted_by_trimmed(below);
    space_before_is_kept(domain);
    subhosts_are_accepted(text::lowered(front), lower);
}

/// How many of `calls` put a cookie into the store.
pub open spec fn stored(calls: Seq<CookieCallView>) -> nat
    decreases calls.len(),
{
    if calls.len() == 0 {
        0
    } else {
        stored(calls.drop_last()) + if calls.last() is AddOrUpdate {
            1nat
        } else {
            0nat
        }
    }
}

proof fn stored_joins(one: Seq<CookieCallView>, other: Seq<CookieCallView>)
    ensures
        stored(one + other) == stored(one) + stored(other),
    decreases other.len(),
{
    if other.len() == 0 {
        assert(one + other =~= one);
    } else {
        assert((one + other).drop_last() =~= one + other.drop_last());
        stored_joins(one, other.drop_last());
    }
}

proof fn stored_nothing(calls: Seq<CookieCallView>)
    requires
        forall|i: int| 0 <= i < calls.len() ==> !(#[trigger] calls[i] is AddOrUpdate),
    ensures
        stored(calls) == 0,
    decreases calls.len(),
{
    if calls.len() > 0 {
        stored_nothing(calls.drop_last());
    }
}

/// Writing cookies puts each of them into the store once.
pub proof fn each_cookie_is_stored_once(cookies: Seq<ImportedCookieView>)
    ensures
        stored(calls_for_all(cookies)) == cookies.len(),
    decreases cookies.len(),
{
    if cookies.len() == 0 {
        stored_nothing(seq![CookieCallView::Open]);
    } else {
        let before = cookies.drop_last();
        let calls = calls_for(cookies.last());
        each_cookie_is_stored_once(before);
        stored_joins(calls_for_all(before), calls);
        assert(calls.last() is AddOrUpdate);
        stored_nothing(calls.drop_last());
    }
}

/// The bits of a finite number, but for the sign, lie below those of infinity; so a number is
/// finite and at least zero if its bits lie below those of infinity, or it is the negative
/// zero.
pub proof fn finite_bits_lie_below_infinity(bits: u64)
    ensures
        is_finite_bits(bits) <==> bits % 0x8000_0000_0000_0000 < 0x7ff0_0000_0000_0000,
        is_finite_bits(bits) && is_non_negative_bits(bits) <==> bits < 0x7ff0_0000_0000_0000
            || bits == 0x8000_0000_0000_0000,
{
    assert((bits / 0x10_0000_0000_0000) % 0x800 != 0x7ff <==> bits % 0x8000_0000_0000_0000
        < 0x7ff0_0000_0000_0000) by (bit_vector);
    assert((bits / 0x10_0000_0000_0000) % 0x800 != 0x7ff && bits <= 0x8000_0000_0000_0000
        <==> bits < 0x7ff0_0000_0000_0000 || bits == 0x8000_0000_0000_0000) by (bit_vector);
}

/// A domain is accepted if and only if, without the space around it and the case of its
/// letters, it is one of the two sites or ends with a full stop and one of them.
pub proof fn domain_is_accepted_by_its_end(domain: Seq<char>)
    ensures
        ({
            let name = text::lowered(text::trimmed(domain));
            is_accepted_domain(domain) <==> {
                ||| name == "chatgpt.com"@
                ||| name == "openai.com"@
                ||| name.len() >= 12 && name.skip(name.len() - 12) == ".chatgpt.com"@
                ||| name.len() >= 11 && name.skip(name.len() - 11) == ".openai.com"@
            }
        }),
{
    accepted_by_trimmed(domain);
    sites_spelt_out();
    let name = text::lowered(text::trimmed(domain));
    if name.len() >= 12 {
        assert(name.skip(name.len() - 12) =~= name.subrange(name.len() - 12, name.len() as int));
    }
    if name.len() >= 11 {
        assert(name.skip(name.len() - 11) =~= name.subrange(name.len() - 11, name.len() as int));
    }
}

/// A kind of same-site restriction is the one that its name says, in whatever case it is
/// written; every other text means no restriction.
pub proof fn same_site_is_the_one_named(name: Seq<char>)
    ensures
        SameSite::named(name) == SameSite::Strict <==> text::lowered(name) == "strict"@,
        SameSite::named(name) == SameSite::Lax <==> text::lowered(name) == "lax"@,
{
    reveal_strlit("strict");
    reveal_strlit("lax");
    assert("strict"@.len() == 6);
    assert("lax"@.len() == 3);
}

/// An import is accepted if and only if there are 1 to 128 cookies, each with a name, a value
/// of at most 16,384 bytes and an accepted domain. Nothing else about them matters.
pub proof fn import_is_judged_by_number_name_value_and_domain(cookies: Seq<ImportedCookieView>)
    ensures
        import_refusal(cookies) is None <==> 1 <= cookies.len() <= 128 && forall|i: int|
            0 <= i < cookies.len() ==> (#[trigger] cookies[i]).name.len() > 0
                && text::byte_length(cookies[i].value) <= 16_384 && is_accepted_domain(
                cookies[i].domain,
            ),
        cookies.len() == 0 || cookies.len() > 128 <==> import_refusal(cookies) == Some(
            Refusal::CookieCount,
        ),
{
    if import_refusal(cookies) is None {
        assert forall|i: int| 0 <= i < cookies.len() implies (#[trigger] cookies[i]).name.len() > 0
            && text::byte_length(cookies[i].value) <= 16_384 && is_accepted_domain(
            cookies[i].domain,
        ) by {
            assert(cookies[i].is_acceptable());
        }
    }
}

/// A list of imported cookies stands for its cookies, one by one, each with all its fields.
pub proof fn cookies_stand_for_their_fields(cookies: Seq<ImportedCookie>, i: int)
    requires
        0 <= i < cookies.len(),
    ensures
        ({
            let view = cookies_view(cookies)[i];
            let cookie = cookies[i];
            &&& cookies_view(cookies).len() == cookies.len()
            &&& view.name == cookie.name@
            &&& view.value == cookie.value@
            &&& view.domain == cookie.domain@
            &&& view.path is Some <==> cookie.path is Some
            &&& cookie.path is Some ==> view.path->0 == cookie.path->0@
            &&& view.expiration_date == cookie.expiration_date
            &&& view.http_only == cookie.http_only
            &&& view.secure == cookie.secure
            &&& view.same_site is Some <==> cookie.same_site is Some
            &&& cookie.same_site is Some ==> view.same_site->0 == cookie.same_site->0@
        }),
{
}

/// A call stands for itself, with all that it holds.
pub proof fn call_stands_for_what_it_holds(call: CookieCall)
    ensures
        match call {
            CookieCall::Open => call@ == CookieCallView::Open,
            CookieCall::Create { name, value, domain, path } => call@ == (CookieCallView::Create {
                name: name@,
                value: value@,
                domain: domain@,
                path: path@,
            }),
            CookieCall::SetExpires(bits) => call@ == CookieCallView::SetExpires(bits),
            CookieCall::SetHttpOnly(on) => call@ == CookieCallView::SetHttpOnly(on),
            CookieCall::SetSecure(on) => call@ == CookieCallView::SetSecure(on),
            CookieCall::SetSameSite(kind) => call@ == CookieCallView::SetSameSite(kind),
            CookieCall::AddOrUpdate => call@ == CookieCallView::AddOrUpdate,
        },
{
}

/// The event for an import that failed is an error whose text ends with the words for what
/// failed, whatever they are.
pub proof fn failed_import_is_told_in_full(error: Seq<char>)
    ensures
        ({
            let event = failed_import(error);
            &&& event.kind == "error"@
            &&& event.error is Some
            &&& event.error->0.len() == 12 + error.len()
            &&& event.error->0.take(12) == "Cookie 导入失败："@
            &&& event.error->0.skip(12) == error
            &&& event.text is None
            &&& event.conversation_id is None
            &&& event.title is None
            &&& event.messages is None
        }),
{
    reveal_strlit("Cookie 导入失败：");
    let told = failed_import(error).error->0;
    assert(told.take(12) =~= "Cookie 导入失败："@);
    assert(told.skip(12) =~= error);
}

} // verus!
