//! The web view's cookie store, as the calls that write cookies fill it.

use vstd::prelude::*;

use crate::cookies;
use crate::cookies::{CookieCallView, ImportedCookieView, SameSite};
use crate::export;
use crate::export::{CookieDetailsView, CookieHeadView};
use crate::flow::{FailureView, Reply};
use crate::text;

verus! {

/// A cookie as the store holds it. What was not set is left to the store.
#[verifier::ext_equal]
pub struct JarCookie {
    pub name: Seq<char>,
    pub value: Seq<char>,
    pub domain: Seq<char>,
    pub path: Seq<char>,
    pub expires: Option<u64>,
    pub http_only: Option<bool>,
    pub secure: Option<bool>,
    pub same_site: Option<SameSite>,
}

/// The store.
#[verifier::ext_equal]
pub struct Jar {
    /// Whether it was reached.
    pub open: bool,
    /// The cookie that is being made.
    pub current: Option<JarCookie>,
    /// The cookies that were put into it, in that order.
    pub put: Seq<JarCookie>,
}

impl Jar {
    /// A store that was not reached yet.
    pub open spec fn closed() -> Jar {
        Jar { open: false, current: None, put: seq![] }
    }

    /// The store with another state of the cookie that is being made.
    pub open spec fn making(self, cookie: JarCookie) -> Jar {
        Jar { current: Some(cookie), ..self }
    }

    /// The store after a call. Nothing comes of a call that lacks the store, or a cookie.
    pub open spec fn did(self, call: CookieCallView) -> Jar {
        match (call, self.current) {
            (CookieCallView::Open, _) => Jar { open: true, ..self },
            (CookieCallView::Create { name, value, domain, path }, _) => if self.open {
                self.making(
                    JarCookie {
                        name,
                        value,
                        domain,
                        path,
                        expires: None,
                        http_only: None,
                        secure: None,
                        same_site: None,
                    },
                )
            } else {
                self
            },
            (CookieCallView::SetExpires(bits), Some(cookie)) => self.making(
                JarCookie { expires: Some(bits), ..cookie },
            ),
            (CookieCallView::SetHttpOnly(on), Some(cookie)) => self.making(
                JarCookie { http_only: Some(on), ..cookie },
            ),
            (CookieCallView::SetSecure(on), Some(cookie)) => self.making(
                JarCookie { secure: Some(on), ..cookie },
            ),
            (CookieCallView::SetSameSite(kind), Some(cookie)) => self.making(
                JarCookie { same_site: Some(kind), ..cookie },
            ),
            (CookieCallView::AddOrUpdate, Some(cookie)) => Jar {
                put: self.put.push(cookie),
                ..self
            },
            (_, None) => self,
        }
    }

    /// The store after `calls`.
    pub open spec fn performed(self, calls: Seq<CookieCallView>) -> Jar
        decreases calls.len(),
    {
        if calls.len() == 0 {
            self
        } else {
            self.performed(calls.drop_last()).did(calls.last())
        }
    }
}

proof fn performed_joins(jar: Jar, one: Seq<CookieCallView>, other: Seq<CookieCallView>)
    ensures
        jar.performed(one + other) == jar.performed(one).performed(other),
    decreases other.len(),
{
    if other.len() == 0 {
        assert(one + other =~= one);
    } else {
        assert((one + other).drop_last() =~= one + other.drop_last());
        performed_joins(jar, one, other.drop_last());
    }
}

proof fn performed_one(jar: Jar, call: CookieCallView)
    ensures
        jar.performed(seq![call]) == jar.did(call),
{
    reveal_with_fuel(Jar::performed, 2);
    assert(seq![call].drop_last() =~= seq![]);
}

proof fn performed_at_most_one(jar: Jar, call: Option<CookieCallView>)
    ensures
        jar.performed(cookies::at_most_one(call)) == match call {
            Some(call) => jar.did(call),
            None => jar,
        },
{
    match call {
        Some(call) => performed_one(jar, call),
        None => {},
    }
}

/// The calls for one cookie, apart from the others.
proof fn one_cookie_is_put(jar: Jar, cookie: ImportedCookieView) -> (made: JarCookie)
    requires
        jar.open,
    ensures
        jar.performed(cookies::calls_for(cookie)) == (Jar {
            open: true,
            current: Some(made),
            put: jar.put.push(made),
        }),
        is_written_as(cookie, made),
{
    let create = seq![cookies::create_call(cookie)];
    let expires = cookies::at_most_one(cookies::expires_call(cookie));
    let http_only = match cookie.http_only {
        Some(on) => Some(CookieCallView::SetHttpOnly(on)),
        None => None,
    };
    let secure = match cookie.secure {
        Some(on) => Some(CookieCallView::SetSecure(on)),
        None => None,
    };
    let same_site = match cookie.same_site {
        Some(name) => Some(CookieCallView::SetSameSite(SameSite::named(name))),
        None => None,
    };
    let flags = create + expires + cookies::at_most_one(http_only) + cookies::at_most_one(secure);
    let all = flags + cookies::at_most_one(same_site);
    performed_one(jar, cookies::create_call(cookie));
    let made1 = jar.performed(create);
    performed_joins(jar, create, expires);
    performed_at_most_one(made1, cookies::expires_call(cookie));
    let made2 = jar.performed(create + expires);
    performed_joins(jar, create + expires, cookies::at_most_one(http_only));
    performed_at_most_one(made2, http_only);
    let made3 = jar.performed(create + expires + cookies::at_most_one(http_only));
    performed_joins(
        jar,
        create + expires + cookies::at_most_one(http_only),
        cookies::at_most_one(secure),
    );
    performed_at_most_one(made3, secure);
    let made4 = jar.performed(flags);
    performed_joins(jar, flags, cookies::at_most_one(same_site));
    performed_at_most_one(made4, same_site);
    let made5 = jar.performed(all);
    performed_joins(jar, all, seq![CookieCallView::AddOrUpdate]);
    performed_one(made5, CookieCallView::AddOrUpdate);
    if cookie.expiration_date is Some {
        cookies::finite_bits_lie_below_infinity(cookie.expiration_date->0);
    }
    if cookie.same_site is Some {
        cookies::same_site_is_the_one_named(cookie.same_site->0);
    }
    made5.current->0
}

/// Whether `made` is the cookie that was given: with its name, value and domain, with its
/// path or for the whole site, with its date of expiry if that is finite, and with those
/// flags and that same-site kind that are given, and no others.
pub open spec fn is_written_as(given: ImportedCookieView, made: JarCookie) -> bool {
    &&& made.name == given.name
    &&& made.value == given.value
    &&& made.domain == given.domain
    &&& given.path is Some ==> made.path == given.path->0
    &&& given.path is None ==> made.path == "/"@
    &&& made.expires is Some <==> given.expiration_date is Some && given.expiration_date->0
        % 0x8000_0000_0000_0000 < 0x7ff0_0000_0000_0000
    &&& made.expires is Some ==> made.expires == given.expiration_date
    &&& made.http_only == given.http_only
    &&& made.secure == given.secure
    &&& made.same_site is Some <==> given.same_site is Some
    &&& given.same_site is Some ==> {
        let name = text::lowered(given.same_site->0);
        &&& made.same_site->0 == SameSite::Strict <==> name == "strict"@
        &&& made.same_site->0 == SameSite::Lax <==> name == "lax"@
    }
}

proof fn cookies_are_put(cookies: Seq<ImportedCookieView>)
    ensures
        ({
            let jar = Jar::closed().performed(cookies::calls_for_all(cookies));
            &&& jar.open
            &&& jar.put.len() == cookies.len()
            &&& forall|i: int|
                0 <= i < cookies.len() ==> is_written_as(cookies[i], #[trigger] jar.put[i])
        }),
    decreases cookies.len(),
{
    let jar = Jar::closed().performed(cookies::calls_for_all(cookies));
    if cookies.len() == 0 {
        performed_one(Jar::closed(), CookieCallView::Open);
    } else {
        let before = Jar::closed().performed(cookies::calls_for_all(cookies.drop_last()));
        cookies_are_put(cookies.drop_last());
        performed_joins(
            Jar::closed(),
            cookies::calls_for_all(cookies.drop_last()),
            cookies::calls_for(cookies.last()),
        );
        let made = one_cookie_is_put(before, cookies.last());
        assert forall|i: int| 0 <= i < cookies.len() implies is_written_as(
            cookies[i],
            #[trigger] jar.put[i],
        ) by {
            if i < cookies.len() - 1 {
                assert(jar.put[i] == before.put[i]);
                assert(cookies.drop_last()[i] == cookies[i]);
            }
        }
    }
}

/// Writing cookies puts each of them into the store, as it was given and in its place: as
/// many cookies are put as there are, and the one put at a place is the one given there.
pub proof fn each_cookie_is_put_as_given(cookies: Seq<ImportedCookieView>, i: int)
    requires
        0 <= i < cookies.len(),
    ensures
        ({
            let put = Jar::closed().performed(cookies::calls_for_all(cookies)).put;
            &&& put.len() == cookies.len()
            &&& is_written_as(cookies[i], put[i])
        }),
{
    cookies_are_put(cookies);
}

/// Writing cookies performs the calls that put them, and tells the host's words of the first
/// that fails.
pub proof fn writing_performs_the_calls(cookies: Seq<ImportedCookieView>, i: int)
    requires
        0 <= i < cookies::calls_for_all(cookies).len(),
    ensures
        ({
            let flow = cookies::write_flow(cookies);
            &&& flow.pending.len() == cookies::calls_for_all(cookies).len()
            &&& flow.pending[i].action == cookies::calls_for_all(cookies)[i]
            &&& flow.pending[i].failure == FailureView::Verbatim
            &&& flow.verdict == Ok::<Reply, Seq<char>>(Reply::Done)
        }),
{
}

/// A cookie that is exported and imported again is put into the store as it was read. Its
/// date of expiry is kept if and only if it is no session cookie and the date is finite and
/// at least zero.
pub proof fn exported_cookie_comes_back(head: CookieHeadView, details: CookieDetailsView)
    ensures
        ({
            let cookie = export::as_imported(export::exported(head, details));
            let put = Jar::closed().performed(cookies::calls_for_all(seq![cookie])).put;
            &&& put.len() == 1
            &&& put[0].name == head.name
            &&& put[0].value == head.value
            &&& put[0].domain == head.domain
            &&& put[0].path == details.path
            &&& put[0].expires is Some <==> !details.session && (details.expires
                < 0x7ff0_0000_0000_0000 || details.expires == 0x8000_0000_0000_0000)
            &&& put[0].expires is Some ==> put[0].expires->0 == details.expires
            &&& put[0].http_only == Some(details.http_only)
            &&& put[0].secure == Some(details.secure)
            &&& put[0].same_site == Some(details.same_site)
        }),
{
    let cookie = export::as_imported(export::exported(head, details));
    each_cookie_is_put_as_given(seq![cookie], 0);
    cookies::finite_bits_lie_below_infinity(details.expires);
    export::same_site_name_reads_back(details.same_site);
    cookies::same_site_is_the_one_named(details.same_site.spec_name());
}

} // verus!
