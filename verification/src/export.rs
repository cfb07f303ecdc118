//! Reading the cookies of the accepted sites out of the web view.

use vstd::prelude::*;

use crate::cookies;
use crate::cookies::{CookieCallView, ImportedCookieView, SameSite};
use crate::text;

verus! {

/// What is read of every cookie.
#[derive(Clone, Debug, PartialEq, Eq)]
pub struct CookieHead {
    pub name: String,
    pub value: String,
    pub domain: String,
}

/// What a `CookieHead` stands for.
#[verifier::ext_equal]
pub struct CookieHeadView {
    pub name: Seq<char>,
    pub value: Seq<char>,
    pub domain: Seq<char>,
}

impl View for CookieHead {
    type V = CookieHeadView;

    open spec fn view(&self) -> CookieHeadView {
        CookieHeadView { name: self.name@, value: self.value@, domain: self.domain@ }
    }
}

/// What is read besides of a cookie of an accepted site. The date of expiry is a binary64
/// number of seconds, given by its bits.
#[derive(Clone, Debug, PartialEq, Eq)]
pub struct CookieDetails {
    pub path: String,
    pub http_only: bool,
    pub secure: bool,
    pub session: bool,
    pub expires: u64,
    pub same_site: SameSite,
}

/// What a `CookieDetails` stands for.
#[verifier::ext_equal]
pub struct CookieDetailsView {
    pub path: Seq<char>,
    pub http_only: bool,
    pub secure: bool,
    pub session: bool,
    pub expires: u64,
    pub same_site: SameSite,
}

impl View for CookieDetails {
    type V = CookieDetailsView;

    open spec fn view(&self) -> CookieDetailsView {
        CookieDetailsView {
            path: self.path@,
            http_only: self.http_only,
            secure: self.secure,
            session: self.session,
            expires: self.expires,
            same_site: self.same_site,
        }
    }
}

/// A cookie as it is handed to the user.
#[derive(Clone, Debug, PartialEq, Eq)]
pub struct ExportedCookie {
    pub name: String,
    pub value: String,
    pub domain: String,
    pub path: String,
    pub expiration_date: Option<u64>,
    pub http_only: bool,
    pub secure: bool,
    pub same_site: String,
}

/// What an `ExportedCookie` stands for.
#[verifier::ext_equal]
pub struct ExportedCookieView {
    pub name: Seq<char>,
    pub value: Seq<char>,
    pub domain: Seq<char>,
    pub path: Seq<char>,
    pub expiration_date: Option<u64>,
    pub http_only: bool,
    pub secure: bool,
    pub same_site: Seq<char>,
}

impl View for ExportedCookie {
    type V = ExportedCookieView;

    open spec fn view(&self) -> ExportedCookieView {
        ExportedCookieView {
            name: self.name@,
            value: self.value@,
            domain: self.domain@,
            path: self.path@,
            expiration_date: self.expiration_date,
            http_only: self.http_only,
            secure: self.secure,
            same_site: self.same_site@,
        }
    }
}

/// What a list of exported cookies stands for.
pub open spec fn exports_view(list: Seq<ExportedCookie>) -> Seq<ExportedCookieView> {
    list.map_values(|cookie: ExportedCookie| cookie@)
}

/// The date of expiry that is exported: none for a session cookie, nor for a date that is
/// not finite or lies before zero.
pub open spec fn exported_date(details: CookieDetailsView) -> Option<u64> {
    if !details.session && cookies::is_finite_bits(details.expires)
        && cookies::is_non_negative_bits(details.expires) {
        Some(details.expires)
    } else {
        None
    }
}

/// The exported form of a cookie.
pub open spec fn exported(head: CookieHeadView, details: CookieDetailsView) -> ExportedCookieView {
    ExportedCookieView {
        name: head.name,
        value: head.value,
        domain: head.domain,
        path: details.path,
        expiration_date: exported_date(details),
        http_only: details.http_only,
        secure: details.secure,
        same_site: details.same_site.spec_name(),
    }
}

/// The exported form of a cookie.
pub fn export_cookie(head: CookieHead, details: CookieDetails) -> (cookie: ExportedCookie)
    ensures
        cookie@ == exported(head@, details@),
{
    let dated = !details.session && cookies::finite_bits(details.expires)
        && cookies::non_negative_bits(details.expires);
    ExportedCookie {
        name: head.name,
        value: head.value,
        domain: head.domain,
        path: details.path,
        expiration_date: if dated {
            Some(details.expires)
        } else {
            None
        },
        http_only: details.http_only,
        secure: details.secure,
        same_site: details.same_site.name().to_string(),
    }
}

/// What the web view is asked next.
#[derive(Clone, Copy, Debug, PartialEq, Eq, Structural)]
pub enum Question {
    /// How many cookies there are.
    Count,
    /// Name, value and domain of the cookie with this index.
    Head(u32),
    /// The rest of the cookie with this index.
    Details(u32),
}

/// How far an export has come.
#[derive(Debug)]
enum Stage {
    Listing,
    Heads { index: u32, count: u32 },
    Details { index: u32, count: u32, head: CookieHead },
    Ended,
    Failed(String),
}

/// What a `Stage` stands for.
#[verifier::ext_equal]
pub enum StageView {
    /// The number of cookies is not known yet.
    Listing,
    /// The head of the cookie with this index is to be read.
    Heads { index: u32, count: u32 },
    /// The details of the cookie with this index are to be read.
    Details { index: u32, count: u32, head: CookieHeadView },
    /// All has been read.
    Ended,
    /// Something could not be read; these are the words for it.
    Failed(Seq<char>),
}

impl View for Stage {
    type V = StageView;

    closed spec fn view(&self) -> StageView {
        match *self {
            Stage::Listing => StageView::Listing,
            Stage::Heads { index, count } => StageView::Heads { index, count },
            Stage::Details { index, count, head } => StageView::Details {
                index,
                count,
                head: head@,
            },
            Stage::Ended => StageView::Ended,
            Stage::Failed(words) => StageView::Failed(words@),
        }
    }
}

/// An export under way.
#[derive(Debug)]
pub struct CookieExport {
    done: Vec<ExportedCookie>,
    stage: Stage,
}

/// What a `CookieExport` stands for.
#[verifier::ext_equal]
pub struct CookieExportView {
    /// The cookies exported so far.
    pub done: Seq<ExportedCookieView>,
    pub stage: StageView,
}

impl View for CookieExport {
    type V = CookieExportView;

    closed spec fn view(&self) -> CookieExportView {
        CookieExportView { done: exports_view(self.done@), stage: self.stage@ }
    }
}

/// The stage in which the cookie with this index comes up.
pub open spec fn stage_at(index: int, count: u32) -> StageView {
    if index < count {
        StageView::Heads { index: index as u32, count }
    } else {
        StageView::Ended
    }
}

impl CookieExportView {
    /// An export of which nothing has been read.
    pub open spec fn empty() -> Self {
        CookieExportView { done: seq![], stage: StageView::Listing }
    }

    /// The export once the number of cookies is known.
    pub open spec fn counted(self, count: u32) -> Self {
        match self.stage {
            StageView::Listing => CookieExportView { stage: stage_at(0, count), ..self },
            _ => self,
        }
    }

    /// The export once the head of a cookie has been read. The details are read of cookies
    /// of accepted sites only.
    pub open spec fn offered(self, head: CookieHeadView) -> Self {
        match self.stage {
            StageView::Heads { index, count } => CookieExportView {
                stage: if cookies::is_accepted_domain(head.domain) {
                    StageView::Details { index, count, head }
                } else {
                    stage_at(index + 1, count)
                },
                ..self
            },
            _ => self,
        }
    }

    /// The export once the details of a cookie have been read.
    pub open spec fn completed(self, details: CookieDetailsView) -> Self {
        match self.stage {
            StageView::Details { index, count, head } => CookieExportView {
                done: self.done.push(exported(head, details)),
                stage: stage_at(index + 1, count),
            },
            _ => self,
        }
    }

    /// The export once something could not be read.
    pub open spec fn failed(self, words: Seq<char>) -> Self {
        match self.stage {
            StageView::Ended => self,
            StageView::Failed(_) => self,
            _ => CookieExportView { stage: StageView::Failed(words), ..self },
        }
    }

    /// What the web view is asked next, if anything.
    pub open spec fn asks(self) -> Option<Question> {
        match self.stage {
            StageView::Listing => Some(Question::Count),
            StageView::Heads { index, .. } => Some(Question::Head(index)),
            StageView::Details { index, .. } => Some(Question::Details(index)),
            StageView::Ended => None,
            StageView::Failed(_) => None,
        }
    }

    /// What has come of the export, once it asks nothing any more.
    pub open spec fn outcome(self) -> Result<Seq<ExportedCookieView>, Seq<char>> {
        match self.stage {
            StageView::Failed(words) => Err(words),
            _ => Ok(self.done),
        }
    }

    /// The export once the cookies `read` have been read, the details only where they are
    /// asked for.
    pub open spec fn after_reading(self, read: Seq<(CookieHeadView, CookieDetailsView)>) -> Self
        decreases read.len(),
    {
        if read.len() == 0 {
            self
        } else {
            let next = self.after_reading(read.drop_last()).offered(read.last().0);
            if next.stage is Details {
                next.completed(read.last().1)
            } else {
                next
            }
        }
    }

    /// Whether all that the export holds is of accepted sites.
    pub open spec fn is_accepted(self) -> bool {
        &&& forall|i: int|
            0 <= i < self.done.len() ==> cookies::is_accepted_domain(
                (#[trigger] self.done[i]).domain,
            )
        &&& self.stage matches StageView::Details { head, .. } ==> cookies::is_accepted_domain(
            head.domain,
        )
    }

    /// Whether the cookie that is being read is one of those counted.
    pub open spec fn is_in_range(self) -> bool {
        match self.stage {
            StageView::Heads { index, count } => index < count,
            StageView::Details { index, count, .. } => index < count,
            _ => true,
        }
    }
}

fn stage_from(index: u32, count: u32) -> (stage: Stage)
    ensures
        stage@ == stage_at(index as int, count),
{
    if index < count {
        Stage::Heads { index, count }
    } else {
        Stage::Ended
    }
}

impl CookieExport {
    #[verifier::type_invariant]
    spec fn is_well_formed(&self) -> bool {
        self@.is_accepted() && self@.is_in_range()
    }

    /// An export of which nothing has been read.
    pub fn begin() -> (export: CookieExport)
        ensures
            export@ == CookieExportView::empty(),
    {
        let done: Vec<ExportedCookie> = Vec::new();
        assert(exports_view(done@) =~= seq![]);
        CookieExport { done, stage: Stage::Listing }
    }

    /// What the web view is asked next; nothing where the export has ended.
    pub fn question(&self) -> (question: Option<Question>)
        ensures
            question == self@.asks(),
    {
        match &self.stage {
            Stage::Listing => Some(Question::Count),
            Stage::Heads { index, .. } => Some(Question::Head(*index)),
            Stage::Details { index, .. } => Some(Question::Details(*index)),
            Stage::Ended => None,
            Stage::Failed(_) => None,
        }
    }

    /// Takes the number of cookies; none where the web view has no list of them.
    pub fn count(&mut self, count: Option<u32>)
        ensures
            final(self)@ == old(self)@.counted(
                match count {
                    Some(count) => count,
                    None => 0,
                },
            ),
    {
        proof {
            use_type_invariant(&*self);
        }
        let count: u32 = match count {
            Some(count) => count,
            None => 0,
        };
        let listing = match &self.stage {
            Stage::Listing => true,
            _ => false,
        };
        if listing {
            self.stage = stage_from(0, count);
        }
    }

    /// Takes the head of a cookie.
    pub fn offer(&mut self, head: CookieHead)
        ensures
            final(self)@ == old(self)@.offered(head@),
    {
        proof {
            use_type_invariant(&*self);
        }
        let place = match &self.stage {
            Stage::Heads { index, count } => Some((*index, *count)),
            _ => None,
        };
        if let Some((index, count)) = place {
            if cookies::is_openai_cookie_domain(head.domain.as_str()) {
                self.stage = Stage::Details { index, count, head };
            } else {
                self.stage = stage_from(index + 1, count);
            }
        }
    }

    /// Takes the details of a cookie.
    pub fn complete(&mut self, details: CookieDetails)
        ensures
            final(self)@ == old(self)@.completed(details@),
    {
        proof {
            use_type_invariant(&*self);
        }
        let mut stage = Stage::Ended;
        std::mem::swap(&mut stage, &mut self.stage);
        match stage {
            Stage::Details { index, count, head } => {
                let mut done: Vec<ExportedCookie> = Vec::new();
                assert(exports_view(done@) =~= seq![]);
                std::mem::swap(&mut done, &mut self.done);
                let ghost before = exports_view(done@);
                let cookie = export_cookie(head, details);
                done.push(cookie);
                assert(exports_view(done@) =~= before.push(cookie@));
                self.done = done;
                self.stage = stage_from(index + 1, count);
            },
            other => {
                self.stage = other;
            },
        }
    }

    /// Takes note that something could not be read.
    pub fn fail(&mut self, words: String)
        ensures
            final(self)@ == old(self)@.failed(words@),
    {
        proof {
            use_type_invariant(&*self);
        }
        if self.question().is_some() {
            self.stage = Stage::Failed(words);
        }
    }

    /// What has come of the export, once it asks nothing any more: the cookies of the
    /// accepted sites, or the words for what could not be read.
    pub fn finish(self) -> (outcome: Result<Vec<ExportedCookie>, String>)
        requires
            self@.asks() is None,
        ensures
            outcome matches Ok(list) ==> self@.outcome() == Ok::<
                Seq<ExportedCookieView>,
                Seq<char>,
            >(exports_view(list@)),
            outcome matches Err(words) ==> self@.outcome() == Err::<
                Seq<ExportedCookieView>,
                Seq<char>,
            >(words@),
            outcome matches Ok(list) ==> forall|i: int|
                0 <= i < list@.len() ==> cookies::is_accepted_domain(
                    (#[trigger] list@[i]).domain@,
                ),
    {
        proof {
            use_type_invariant(&self);
            assert forall|i: int| 0 <= i < self.done@.len() implies cookies::is_accepted_domain(
                (#[trigger] self.done@[i]).domain@,
            ) by {
                assert(self@.done[i] == self.done@[i]@);
            }
        }
        match self.stage {
            Stage::Failed(words) => Err(words),
            _ => Ok(self.done),
        }
    }
}

/// What is told where the web view could not read its cookies.
pub open spec fn failed_reading(code: Seq<char>) -> Seq<char> {
    "WebView2 读取 Cookie 失败："@ + code
}

/// What is told where the web view could not read its cookies.
pub fn read_failure(code: &str) -> (told: String)
    ensures
        told@ == "WebView2 读取 Cookie 失败："@ + code@,
        told@ == failed_reading(code@),
{
    let mut told = "WebView2 读取 Cookie 失败：".to_string();
    told.append(code);
    told
}

/// The exported forms of those cookies in `read` that are of accepted sites, in order.
pub open spec fn accepted_exports(read: Seq<(CookieHeadView, CookieDetailsView)>) -> Seq<
    ExportedCookieView,
>
    decreases read.len(),
{
    if read.len() == 0 {
        seq![]
    } else if cookies::is_accepted_domain(read.last().0.domain) {
        accepted_exports(read.drop_last()).push(exported(read.last().0, read.last().1))
    } else {
        accepted_exports(read.drop_last())
    }
}

proof fn reading_advances(read: Seq<(CookieHeadView, CookieDetailsView)>, count: u32)
    requires
        read.len() <= count,
    ensures
        CookieExportView::empty().counted(count).after_reading(read) == (CookieExportView {
            done: accepted_exports(read),
            stage: stage_at(read.len() as int, count),
        }),
    decreases read.len(),
{
    if read.len() > 0 {
        reading_advances(read.drop_last(), count);
    }
}

/// An export that reads every cookie holds those of the accepted sites, all of them and no
/// others, in the order in which they were read.
pub proof fn export_keeps_the_accepted(
    read: Seq<(CookieHeadView, CookieDetailsView)>,
    count: u32,
)
    requires
        read.len() == count,
    ensures
        ({
            let ended = CookieExportView::empty().counted(count).after_reading(read);
            &&& ended.asks() is None
            &&& ended.outcome() == Ok::<Seq<ExportedCookieView>, Seq<char>>(accepted_exports(read))
        }),
{
    reading_advances(read, count);
}

/// An export in which something cannot be read hands out no cookie, however many were read
/// before, and nothing that comes after changes that.
pub proof fn failed_export_hands_out_nothing(
    export: CookieExportView,
    words: Seq<char>,
    read: Seq<(CookieHeadView, CookieDetailsView)>,
)
    requires
        export.asks() is Some,
    ensures
        export.failed(words).after_reading(read).asks() is None,
        export.failed(words).after_reading(read).outcome() == Err::<
            Seq<ExportedCookieView>,
            Seq<char>,
        >(words),
    decreases read.len(),
{
    if read.len() > 0 {
        failed_export_hands_out_nothing(export, words, read.drop_last());
    }
}

/// An exported cookie as the import takes it.
pub open spec fn as_imported(cookie: ExportedCookieView) -> ImportedCookieView {
    ImportedCookieView {
        name: cookie.name,
        value: cookie.value,
        domain: cookie.domain,
        path: Some(cookie.path),
        expiration_date: cookie.expiration_date,
        http_only: Some(cookie.http_only),
        secure: Some(cookie.secure),
        same_site: Some(cookie.same_site),
    }
}

/// The name of a same-site kind names that kind.
pub proof fn same_site_name_reads_back(kind: SameSite)
    ensures
        SameSite::named(kind.spec_name()) == kind,
{
    reveal_strlit("strict");
    reveal_strlit("lax");
    reveal_strlit("none");
    assert(text::lowered(kind.spec_name()) =~= kind.spec_name());
    assert("lax"@.len() == 3);
    assert("strict"@.len() == 6);
    assert("none"@.len() == 4);
}

/// A cookie that was exported can be imported again, if it has a name and its value is not
/// too long.
pub proof fn exported_cookie_is_acceptable(head: CookieHeadView, details: CookieDetailsView)
    requires
        cookies::is_accepted_domain(head.domain),
        head.name.len() > 0,
        text::byte_length(head.value) <= cookies::MOST_VALUE_BYTES,
    ensures
        as_imported(exported(head, details)).is_acceptable(),
{
}

/// The calls that write what was read of a cookie: name, value, domain, path, both flags
/// and the same-site kind, and the date of expiry if the cookie is no session cookie and the
/// date is finite and lies at or after zero. The bits of such a date lie below those of
/// infinity, but for the negative zero.
pub open spec fn restoring_calls(head: CookieHeadView, details: CookieDetailsView) -> Seq<
    CookieCallView,
> {
    let date = if !details.session && (details.expires < 0x7ff0_0000_0000_0000 || details.expires
        == 0x8000_0000_0000_0000) {
        seq![CookieCallView::SetExpires(details.expires)]
    } else {
        seq![]
    };
    seq![
        CookieCallView::Create {
            name: head.name,
            value: head.value,
            domain: head.domain,
            path: details.path,
        },
    ] + date + seq![
        CookieCallView::SetHttpOnly(details.http_only),
        CookieCallView::SetSecure(details.secure),
        CookieCallView::SetSameSite(details.same_site),
        CookieCallView::AddOrUpdate,
    ]
}

/// Importing an exported cookie writes what was read of it.
pub proof fn import_restores_export(head: CookieHeadView, details: CookieDetailsView)
    ensures
        cookies::calls_for(as_imported(exported(head, details))) == restoring_calls(head, details),
{
    same_site_name_reads_back(details.same_site);
    cookies::finite_bits_lie_below_infinity(details.expires);
}

/// An exported cookie carries all that was read of it. Its date of expiry depends on whether
/// it is a session cookie and on the date alone: it is there if and only if the cookie is no
/// session cookie and the date is finite and at least zero.
pub proof fn exported_cookie_carries_what_was_read(
    head: CookieHeadView,
    details: CookieDetailsView,
)
    ensures
        ({
            let cookie = exported(head, details);
            &&& cookie.name == head.name
            &&& cookie.value == head.value
            &&& cookie.domain == head.domain
            &&& cookie.path == details.path
            &&& cookie.http_only == details.http_only
            &&& cookie.secure == details.secure
            &&& cookie.expiration_date is Some <==> !details.session && (details.expires
                < 0x7ff0_0000_0000_0000 || details.expires == 0x8000_0000_0000_0000)
            &&& cookie.expiration_date is Some ==> cookie.expiration_date->0 == details.expires
            &&& details.same_site == SameSite::Strict ==> cookie.same_site == "strict"@
            &&& details.same_site == SameSite::Lax ==> cookie.same_site == "lax"@
            &&& details.same_site == SameSite::NoRestriction ==> cookie.same_site == "none"@
        }),
{
    cookies::finite_bits_lie_below_infinity(details.expires);
}

/// An export of one cookie more holds one cookie more, at the end, if that cookie is of an
/// accepted site, and the same cookies if it is not.
pub proof fn export_grows_by_the_accepted(
    read: Seq<(CookieHeadView, CookieDetailsView)>,
    head: CookieHeadView,
    details: CookieDetailsView,
)
    requires
        read.len() < u32::MAX,
    ensures
        ({
            let before = CookieExportView::empty().counted(read.len() as u32).after_reading(
                read,
            ).outcome();
            let after = CookieExportView::empty().counted((read.len() + 1) as u32).after_reading(
                read.push((head, details)),
            ).outcome();
            &&& before is Ok
            &&& after is Ok
            &&& read.len() == 0 ==> before->Ok_0.len() == 0
            &&& !cookies::is_accepted_domain(head.domain) ==> after == before
            &&& cookies::is_accepted_domain(head.domain) ==> after->Ok_0 == before->Ok_0.push(
                exported(head, details),
            )
        }),
{
    let longer = read.push((head, details));
    reading_advances(read, read.len() as u32);
    reading_advances(longer, longer.len() as u32);
    assert(longer.drop_last() =~= read);
}

/// An export asks for the number of cookies first, then for the head of each of them in
/// turn, and for the rest of those of accepted sites only, until all have been read.
pub proof fn every_cookie_is_asked_for(
    read: Seq<(CookieHeadView, CookieDetailsView)>,
    count: u32,
    head: CookieHeadView,
    details: CookieDetailsView,
)
    requires
        read.len() < count,
    ensures
        ({
            let reading = CookieExportView::empty().counted(count).after_reading(read);
            let index = read.len() as u32;
            let next = if index + 1 < count {
                Some(Question::Head((index + 1) as u32))
            } else {
                None
            };
            &&& CookieExportView::empty().asks() == Some(Question::Count)
            &&& CookieExportView::empty().counted(0).asks() is None
            &&& reading.asks() == Some(Question::Head(index))
            &&& cookies::is_accepted_domain(head.domain) ==> reading.offered(head).asks() == Some(
                Question::Details(index),
            )
            &&& cookies::is_accepted_domain(head.domain) ==> reading.offered(head).completed(
                details,
            ).asks() == next
            &&& !cookies::is_accepted_domain(head.domain) ==> reading.offered(head).asks() == next
        }),
{
    reading_advances(read, count);
}

/// What an export is told without having asked changes nothing.
pub proof fn unasked_answers_change_nothing(
    export: CookieExportView,
    count: u32,
    head: CookieHeadView,
    details: CookieDetailsView,
    words: Seq<char>,
)
    ensures
        !(export.asks() matches Some(Question::Count)) ==> export.counted(count) == export,
        !(export.asks() matches Some(Question::Head(_))) ==> export.offered(head) == export,
        !(export.asks() matches Some(Question::Details(_))) ==> export.completed(details)
            == export,
        export.asks() is None ==> export.failed(words) == export,
{
}

/// What is told of a failed reading ends with the code for it, whatever that is.
pub proof fn failed_reading_is_told_in_full(code: Seq<char>)
    ensures
        failed_reading(code).len() == 22 + code.len(),
        failed_reading(code).take(22) == "WebView2 读取 Cookie 失败："@,
        failed_reading(code).skip(22) == code,
{
    reveal_strlit("WebView2 读取 Cookie 失败：");
    assert(failed_reading(code).take(22) =~= "WebView2 读取 Cookie 失败："@);
    assert(failed_reading(code).skip(22) =~= code);
}

/// What is read of a cookie, and what is exported, stand for all their fields.
pub proof fn cookies_read_stand_for_their_fields(
    head: CookieHead,
    details: CookieDetails,
    list: Seq<ExportedCookie>,
    i: int,
)
    requires
        0 <= i < list.len(),
    ensures
        head@.name == head.name@,
        head@.value == head.value@,
        head@.domain == head.domain@,
        details@.path == details.path@,
        details@.http_only == details.http_only,
        details@.secure == details.secure,
        details@.session == details.session,
        details@.expires == details.expires,
        details@.same_site == details.same_site,
        exports_view(list).len() == list.len(),
        ({
            let view = exports_view(list)[i];
            &&& view.name == list[i].name@
            &&& view.value == list[i].value@
            &&& view.domain == list[i].domain@
            &&& view.path == list[i].path@
            &&& view.expiration_date == list[i].expiration_date
            &&& view.http_only == list[i].http_only
            &&& view.secure == list[i].secure
            &&& view.same_site == list[i].same_site@
        }),
{
}

} // verus!
