//! Submissions, read out of the pages that list them.

use vstd::prelude::*;

use crate::copying::Duplicate;
use crate::outside;
use crate::outside::Cell;
use crate::seqs;
use crate::text;

verus! {

/// A submission for a problem.
pub struct ProblemSubmission {
    pub id: i64,
    pub epoch_second: i64,
    pub verdict: String,
    pub url: String,
}

/// What a `ProblemSubmission` holds.
#[verifier::ext_equal]
pub struct ProblemSubmissionModel {
    pub id: i64,
    pub epoch_second: i64,
    pub verdict: Seq<char>,
    pub url: Seq<char>,
}

impl DeepView for ProblemSubmission {
    type V = ProblemSubmissionModel;

    open spec fn deep_view(&self) -> ProblemSubmissionModel {
        ProblemSubmissionModel {
            id: self.id,
            epoch_second: self.epoch_second,
            verdict: self.verdict@,
            url: self.url@,
        }
    }
}

impl Duplicate for ProblemSubmission {
    fn duplicate(&self) -> (r: Self) {
        ProblemSubmission {
            id: self.id,
            epoch_second: self.epoch_second,
            verdict: self.verdict.clone(),
            url: self.url.clone(),
        }
    }
}

/// What can be wrong with a page of submissions.
#[derive(Clone, Copy, Debug, PartialEq, Eq, Structural)]
pub enum PageError {
    /// The page is too long to be parsed.
    TooLong,
    /// A selector is not valid.
    Selector,
    /// The format of the times is not valid.
    TimeFormat,
    /// The page does not show the source of a submission.
    SourceNotFound,
}

/// An element of a page: its `href` attribute and its text.
pub type CellModel = (Option<Seq<char>>, Seq<char>);

/// The elements of a row that are read: the link to the problem, the link to the submission, the
/// time and the verdict.
pub open spec fn cell_selectors() -> Seq<Seq<char>> {
    seq![
        "td:nth-child(3) a"@,
        "td:last-child a.submission-details-link"@,
        "td:first-child time"@,
        "td:nth-child(7)"@,
    ]
}

/// The number at the end of a path.
pub open spec fn id_of(href: Seq<char>) -> Option<i64> {
    seqs::parse_i64(seqs::split_char(href, '/').last())
}

/// The address of a submission.
pub open spec fn submission_url(contest_id: Seq<char>, id: int) -> Seq<char> {
    "https://atcoder.jp/contests/"@ + contest_id + "/submissions/"@ + seqs::signed_decimal(id)
}

/// The `href` attribute of an element.
pub open spec fn href_of(cell: Option<CellModel>) -> Option<Seq<char>> {
    match cell {
        Some((href, _)) => href,
        None => None,
    }
}

/// The text of an element; empty, if there is none.
pub open spec fn text_of(cell: Option<CellModel>) -> Seq<char> {
    match cell {
        Some((_, text)) => text,
        None => seq![],
    }
}

/// Whether a link leads to the task `problem_id`.
pub open spec fn links_to_task(href: Seq<char>, problem_id: Seq<char>) -> bool {
    seqs::ends_with(seqs::before_query(href), "/tasks/"@ + problem_id)
}

/// The submission in a row, if it is one for the problem and its link and time can be read;
/// `epoch_second` is what its time reads as.
pub open spec fn row_submission(
    row: Seq<Option<CellModel>>,
    epoch_second: Option<i64>,
    contest_id: Seq<char>,
    problem_id: Seq<char>,
) -> Option<ProblemSubmissionModel> {
    match (href_of(row[0]), href_of(row[1]), epoch_second) {
        (Some(problem_href), Some(details_href), Some(epoch_second)) => match id_of(details_href) {
            Some(id) if links_to_task(problem_href, problem_id) => Some(
                ProblemSubmissionModel {
                    id,
                    epoch_second,
                    verdict: seqs::trim(text_of(row[3])),
                    url: submission_url(contest_id, id as int),
                },
            ),
            _ => None,
        },
        _ => None,
    }
}

/// What the time in a row reads as.
pub open spec fn row_time(cell: Option<CellModel>) -> Option<i64> {
    match cell {
        Some((_, text)) => outside::offset_time(seqs::trim(text), outside::date_time_format()),
        None => None,
    }
}

/// The submissions in `rows`, in order.
pub open spec fn rows_submissions(
    rows: Seq<Seq<Option<CellModel>>>,
    contest_id: Seq<char>,
    problem_id: Seq<char>,
) -> Seq<ProblemSubmissionModel>
    decreases rows.len(),
{
    if rows.len() == 0 {
        seq![]
    } else {
        let before = rows_submissions(rows.drop_last(), contest_id, problem_id);
        match row_submission(rows.last(), row_time(rows.last()[2]), contest_id, problem_id) {
            Some(submission) => before.push(submission),
            None => before,
        }
    }
}

/// The number at the end of a path.
pub fn submission_id(href: &str) -> (r: Option<i64>)
    ensures
        r == id_of(href@),
{
    let chars = text::chars_of(href);
    let parts = text::split_char(&chars, '/');
    proof {
        seqs::split_char_len(href@, '/');
        assert(seqs::views(parts@).last() == parts@.last()@);
    }
    text::parse_i64(parts[parts.len() - 1].as_slice())
}

/// The address of a submission.
pub fn submission_address(contest_id: &str, id: i64) -> (r: String)
    ensures
        r@ == submission_url(contest_id@, id as int),
{
    let digits = text::signed_decimal(id);
    let digits = text::string_of(&digits);
    "https://atcoder.jp/contests/".to_owned().concat(contest_id).concat("/submissions/").concat(
        digits.as_str(),
    )
}

/// What the time in a row reads as.
pub fn cell_time(cell: &Option<Cell>) -> (r: Option<i64>)
    ensures
        r == row_time(cell.deep_view()),
{
    match cell {
        None => None,
        Some((_, time_text)) => {
            let time_text = text::trim_str(time_text.as_str());
            outside::parse_offset_time(
                time_text.as_str(),
                "[year]-[month]-[day] [hour]:[minute]:[second][offset_hour][offset_minute]",
            )
        },
    }
}

/// The text of an element; empty, if there is none.
pub fn cell_text(cell: &Option<Cell>) -> (r: String)
    ensures
        r@ == text_of(cell.deep_view()),
{
    match cell {
        Some((_, text)) => text.clone(),
        None => String::new(),
    }
}

/// The submission in a row of the elements that are read, given what its time reads as.
pub fn submission_from_row(
    row: &Vec<Option<Cell>>,
    epoch_second: Option<i64>,
    contest_id: &str,
    problem_id: &str,
) -> (r: Option<ProblemSubmission>)
    requires
        row@.len() == 4,
    ensures
        r.deep_view() == row_submission(
            row.deep_view(),
            epoch_second,
            contest_id@,
            problem_id@,
        ),
{
    let (problem_href, details_href, epoch_second) = match (&row[0], &row[1], epoch_second) {
        (Some((Some(problem), _)), Some((Some(details), _)), Some(second)) => (
            problem,
            details,
            second,
        ),
        _ => {
            return None;
        },
    };
    let id = match submission_id(details_href.as_str()) {
        None => {
            return None;
        },
        Some(id) => id,
    };
    let href = text::chars_of(problem_href.as_str());
    let task = "/tasks/".to_owned().concat(problem_id);
    if !text::ends_with(text::before_query(&href), task.as_str()) {
        return None;
    }
    let verdict = cell_text(&row[3]);
    Some(
        ProblemSubmission {
            id,
            epoch_second,
            verdict: text::trim_str(verdict.as_str()),
            url: submission_address(contest_id, id),
        },
    )
}

/// The submissions in `rows`, in order.
pub fn submissions_from_rows(
    rows: &Vec<Vec<Option<Cell>>>,
    contest_id: &str,
    problem_id: &str,
) -> (r: Vec<ProblemSubmission>)
    requires
        forall|i: int| 0 <= i < rows@.len() ==> (#[trigger] rows@[i])@.len() == 4,
    ensures
        r.deep_view() == rows_submissions(rows.deep_view(), contest_id@, problem_id@),
{
    let ghost all = rows.deep_view();
    let mut out: Vec<ProblemSubmission> = Vec::new();
    let mut i: usize = 0;
    assert(out.deep_view() =~= rows_submissions(all.take(0), contest_id@, problem_id@));
    while i < rows.len()
        invariant
            i <= rows@.len(),
            all == rows.deep_view(),
            forall|k: int| 0 <= k < rows@.len() ==> (#[trigger] rows@[k])@.len() == 4,
            out.deep_view() == rows_submissions(all.take(i as int), contest_id@, problem_id@),
        decreases rows@.len() - i,
    {
        let row = &rows[i];
        let ghost before = out.deep_view();
        proof {
            assert(all.take(i + 1).drop_last() =~= all.take(i as int));
            assert(all.take(i + 1).last() == row.deep_view());
        }
        let epoch_second = cell_time(&row[2]);
        if let Some(submission) = submission_from_row(row, epoch_second, contest_id, problem_id) {
            let ghost found = submission.deep_view();
            out.push(submission);
            assert(out.deep_view() =~= before.push(found));
        }
        i += 1;
    }
    assert(all.take(i as int) =~= all);
    out
}

/// The submissions for a problem that a page lists.
pub fn parse_atcoder_submissions_page(html: &str, contest_id: &str, problem_id: &str) -> (r: Result<
    Vec<ProblemSubmission>,
    PageError,
>)
    ensures
        html@.len() > outside::MAX_PAGE_LENGTH ==> r matches Err(PageError::TooLong),
        html@.len() <= outside::MAX_PAGE_LENGTH ==> match outside::selected_cells(
            html@,
            "table.table-bordered tbody tr"@,
            cell_selectors(),
        ) {
            None => r matches Err(PageError::Selector),
            Some(rows) => if outside::is_time_format(outside::date_time_format()) {
                r matches Ok(submissions) && submissions.deep_view() == rows_submissions(
                    rows,
                    contest_id@,
                    problem_id@,
                )
            } else {
                r matches Err(PageError::TimeFormat)
            },
        },
{
    if !outside::fits_parser(html) {
        return Err(PageError::TooLong);
    }
    let mut selectors: Vec<String> = Vec::new();
    selectors.push("td:nth-child(3) a".to_owned());
    selectors.push("td:last-child a.submission-details-link".to_owned());
    selectors.push("td:first-child time".to_owned());
    selectors.push("td:nth-child(7)".to_owned());
    assert(selectors.deep_view() =~= cell_selectors());
    let rows = match outside::select_cells(html, "table.table-bordered tbody tr", &selectors) {
        None => {
            return Err(PageError::Selector);
        },
        Some(rows) => rows,
    };
    if !outside::check_time_format(
        "[year]-[month]-[day] [hour]:[minute]:[second][offset_hour][offset_minute]",
    ) {
        return Err(PageError::TimeFormat);
    }
    Ok(submissions_from_rows(&rows, contest_id, problem_id))
}

/// The source that the page of a submission shows.
pub open spec fn shown_source(selected: Option<Option<Seq<char>>>) -> Result<Seq<char>, PageError> {
    match selected {
        None => Err(PageError::Selector),
        Some(Some(source)) if source.len() > 0 => Ok(source),
        _ => Err(PageError::SourceNotFound),
    }
}

/// The source that the page of a submission shows, given what was found in it.
pub fn source_from_selection(selected: Option<Option<String>>) -> (r: Result<String, PageError>)
    ensures
        match shown_source(selected.deep_view()) {
            Ok(source) => r matches Ok(found) && found@ == source,
            Err(error) => r matches Err(found) && found == error,
        },
{
    match selected {
        None => Err(PageError::Selector),
        Some(None) => Err(PageError::SourceNotFound),
        Some(Some(source)) => {
            if source.as_str().is_empty() {
                Err(PageError::SourceNotFound)
            } else {
                Ok(source)
            }
        },
    }
}

/// The source that the page of a submission shows.
pub fn parse_atcoder_submission_source_page(html: &str) -> (r: Result<String, PageError>)
    ensures
        html@.len() > outside::MAX_PAGE_LENGTH ==> r matches Err(PageError::TooLong),
        html@.len() <= outside::MAX_PAGE_LENGTH ==> match shown_source(
            outside::selected_text(html@, "#submission-code"@),
        ) {
            Ok(source) => r matches Ok(found) && found@ == source,
            Err(error) => r matches Err(found) && found == error,
        },
{
    if !outside::fits_parser(html) {
        return Err(PageError::TooLong);
    }
    source_from_selection(outside::select_text(html, "#submission-code"))
}

/// What is wrong with a request for submissions.
#[derive(Clone, Copy, Debug, PartialEq, Eq, Structural)]
pub enum RequestError {
    /// The AtCoder user is not configured.
    NoUser,
    /// The contest is not known.
    NoContest,
    /// The problem is not known.
    NoProblem,
    /// There is no login session.
    NoSession,
}

/// What is wrong with a request for the submissions of a user for a problem.
pub open spec fn request_problem(
    atcoder_user: Seq<char>,
    contest_id: Seq<char>,
    problem_id: Seq<char>,
) -> Option<RequestError> {
    if seqs::is_blank(atcoder_user) {
        Some(RequestError::NoUser)
    } else if seqs::is_blank(contest_id) {
        Some(RequestError::NoContest)
    } else if seqs::is_blank(problem_id) {
        Some(RequestError::NoProblem)
    } else {
        None
    }
}

/// Whether the submissions of a user for a problem can be asked for, and if not, why.
pub fn check_submissions_request(atcoder_user: &str, contest_id: &str, problem_id: &str) -> (r:
    Result<(), RequestError>)
    ensures
        match request_problem(atcoder_user@, contest_id@, problem_id@) {
            Some(error) => r matches Err(found) && found == error,
            None => r is Ok,
        },
{
    if text::is_blank_str(atcoder_user) {
        Err(RequestError::NoUser)
    } else if text::is_blank_str(contest_id) {
        Err(RequestError::NoContest)
    } else if text::is_blank_str(problem_id) {
        Err(RequestError::NoProblem)
    } else {
        Ok(())
    }
}

/// Whether the submissions of a user for a problem of the list can be asked for. Unlike for
/// `check_submissions_request`, a user of white space alone passes.
pub fn check_problem_submissions_request(atcoder_user: &str, contest_id: &str) -> (r: Result<
    (),
    RequestError,
>)
    ensures
        r == if atcoder_user@.len() == 0 {
            Err::<(), RequestError>(RequestError::NoUser)
        } else if seqs::is_blank(contest_id@) {
            Err(RequestError::NoContest)
        } else {
            Ok(())
        },
{
    if atcoder_user.is_empty() {
        Err(RequestError::NoUser)
    } else if text::is_blank_str(contest_id) {
        Err(RequestError::NoContest)
    } else {
        Ok(())
    }
}

/// The address of a page of the submissions of a user for a problem.
pub open spec fn page_url(
    contest_id: Seq<char>,
    atcoder_user: Seq<char>,
    problem_id: Seq<char>,
    page: nat,
) -> Seq<char> {
    "https://atcoder.jp/contests/"@ + contest_id + "/submissions?f.User="@ + atcoder_user
        + "&f.Task="@ + problem_id + "&page="@ + seqs::decimal(page)
}

/// The address of a page of the submissions of a user for a problem.
pub fn submissions_page_url(contest_id: &str, atcoder_user: &str, problem_id: &str, page: u32) -> (r:
    String)
    ensures
        r@ == page_url(contest_id@, atcoder_user@, problem_id@, page as nat),
{
    let digits = text::decimal(page as u64);
    let digits = text::string_of(&digits);
    "https://atcoder.jp/contests/".to_owned().concat(contest_id).concat(
        "/submissions?f.User=",
    ).concat(atcoder_user).concat("&f.Task=").concat(problem_id).concat("&page=").concat(
        digits.as_str(),
    )
}

/// The session in a text: what is left of it without white space around, if anything.
pub open spec fn session_in(text: Seq<char>) -> Option<Seq<char>> {
    if seqs::is_blank(text) {
        None
    } else {
        Some(seqs::trim(text))
    }
}

/// The session in a text.
pub fn session_text(content: &str) -> (r: Option<String>)
    ensures
        r.deep_view() == session_in(content@),
{
    let session = text::trim_str(content);
    if session.as_str().is_empty() {
        None
    } else {
        Some(session)
    }
}

/// The cookie that carries a session.
pub fn session_cookie(session: &str) -> (r: String)
    ensures
        r@ == "REVEL_SESSION="@ + seqs::trim(session@),
{
    let session = text::trim_str(session);
    "REVEL_SESSION=".to_owned().concat(session.as_str())
}

/// The session that a request for the source of a submission needs.
pub fn check_source_request(contest_id: &str, session: &Option<String>) -> (r: Result<
    (),
    RequestError,
>)
    ensures
        r == if session is None || seqs::is_blank(session->0@) {
            Err::<(), RequestError>(RequestError::NoSession)
        } else if seqs::is_blank(contest_id@) {
            Err(RequestError::NoContest)
        } else {
            Ok(())
        },
{
    let has_session = match session {
        Some(session) => !text::is_blank_str(session.as_str()),
        None => false,
    };
    if !has_session {
        Err(RequestError::NoSession)
    } else if text::is_blank_str(contest_id) {
        Err(RequestError::NoContest)
    } else {
        Ok(())
    }
}

/// A file that may hold a session.
pub enum SessionFile {
    /// There is no such file.
    Missing,
    /// The file exists, but reading it fails.
    Unreadable,
    /// The file holds this text.
    Content(String),
}

/// The session in the first of `files` that holds one. If reading one before that fails, that is
/// what comes of it.
pub open spec fn session_of_files(files: Seq<SessionFile>) -> Result<Option<Seq<char>>, ()>
    decreases files.len(),
{
    if files.len() == 0 {
        Ok(None)
    } else {
        match files[0] {
            SessionFile::Missing => session_of_files(files.skip(1)),
            SessionFile::Unreadable => Err(()),
            SessionFile::Content(content) => match session_in(content@) {
                Some(session) => Ok(Some(session)),
                None => session_of_files(files.skip(1)),
            },
        }
    }
}

/// The session that is configured: the one in the environment, else the one in the first file that
/// holds one.
pub open spec fn configured_session(environment: Option<Seq<char>>, files: Seq<SessionFile>) -> Result<
    Option<Seq<char>>,
    (),
> {
    match environment {
        Some(text) if session_in(text) is Some => Ok(session_in(text)),
        _ => session_of_files(files),
    }
}

/// The session that is configured, given what the environment says and what the files hold.
pub fn load_atcoder_revel_session(environment: Option<String>, files: &Vec<SessionFile>) -> (r:
    Result<Option<String>, ()>)
    ensures
        match configured_session(environment.deep_view(), files@) {
            Ok(session) => r matches Ok(found) && found.deep_view() == session,
            Err(_) => r is Err,
        },
{
    if let Some(content) = environment {
        if let Some(session) = session_text(content.as_str()) {
            return Ok(Some(session));
        }
    }
    let mut i: usize = 0;
    assert(files@.skip(0) =~= files@);
    while i < files.len()
        invariant
            i <= files@.len(),
            session_of_files(files@) == session_of_files(files@.skip(i as int)),
            configured_session(environment.deep_view(), files@) == session_of_files(files@),
        decreases files@.len() - i,
    {
        assert(files@.skip(i as int)[0] == files@[i as int]);
        assert(files@.skip(i as int).skip(1) =~= files@.skip(i + 1));
        match &files[i] {
            SessionFile::Missing => {},
            SessionFile::Unreadable => {
                return Err(());
            },
            SessionFile::Content(content) => {
                if let Some(session) = session_text(content.as_str()) {
                    return Ok(Some(session));
                }
            },
        }
        i += 1;
    }
    Ok(None)
}

/// The path of the file in which the server looks for a session, as its parts.
pub fn default_atcoder_revel_session_path() -> (r: Vec<String>)
    ensures
        r.deep_view() == seq!["crates"@, "rduel_server"@, "atcoder_revel_session"@],
{
    let r = text::strings_of(&["crates", "rduel_server", "atcoder_revel_session"]);
    assert(r.deep_view() =~= seq!["crates"@, "rduel_server"@, "atcoder_revel_session"@]);
    r
}

/// The paths of the files that may hold a session, each as its parts.
pub fn default_atcoder_revel_session_paths(home: Option<String>) -> (r: Vec<Vec<String>>)
    ensures
        r.deep_view() == match home {
            Some(home) => seq![
                seq!["crates"@, "rduel_server"@, "atcoder_revel_session"@],
                seq![home@, ".rduel-server"@, "atcoder_revel_session"@],
            ],
            None => seq![seq!["crates"@, "rduel_server"@, "atcoder_revel_session"@]],
        },
{
    let mut paths: Vec<Vec<String>> = Vec::new();
    paths.push(default_atcoder_revel_session_path());
    match home {
        None => {
            assert(paths.deep_view() =~= seq![
                seq!["crates"@, "rduel_server"@, "atcoder_revel_session"@],
            ]);
        },
        Some(home) => {
            let ghost place = home@;
            let mut own: Vec<String> = Vec::new();
            own.push(home);
            own.push(".rduel-server".to_owned());
            own.push("atcoder_revel_session".to_owned());
            assert(own.deep_view() =~= seq![place, ".rduel-server"@, "atcoder_revel_session"@]);
            paths.push(own);
            assert(paths.deep_view() =~= seq![
                seq!["crates"@, "rduel_server"@, "atcoder_revel_session"@],
                seq![place, ".rduel-server"@, "atcoder_revel_session"@],
            ]);
        },
    }
    paths
}

/// How many pages of submissions are read unless another number is asked for.
pub const DEFAULT_MAX_SUBMISSION_PAGES: u32 = 3;

/// The submissions of a user for a problem while they are read page by page.
pub struct SubmissionPages {
    /// The page to read next.
    pub page: u32,
    pub max_pages: u32,
    pub limit: Option<usize>,
    pub submissions: Vec<ProblemSubmission>,
    /// Whether there is nothing more to read.
    pub done: bool,
}

/// What `SubmissionPages` holds.
#[verifier::ext_equal]
pub struct SubmissionPagesModel {
    pub page: u32,
    pub max_pages: u32,
    pub limit: Option<usize>,
    pub submissions: Seq<ProblemSubmissionModel>,
    pub done: bool,
}

impl View for SubmissionPages {
    type V = SubmissionPagesModel;

    open spec fn view(&self) -> SubmissionPagesModel {
        SubmissionPagesModel {
            page: self.page,
            max_pages: self.max_pages,
            limit: self.limit,
            submissions: self.submissions.deep_view(),
            done: self.done,
        }
    }
}

/// At least one page is read, and at least one submission is kept.
pub open spec fn first_page(max_pages: u32, limit: Option<usize>) -> SubmissionPagesModel {
    SubmissionPagesModel {
        page: 1,
        max_pages: if max_pages > 1 {
            max_pages
        } else {
            1
        },
        limit: match limit {
            Some(limit) => Some(
                if limit > 1 {
                    limit
                } else {
                    1
                },
            ),
            None => None,
        },
        submissions: seq![],
        done: false,
    }
}

impl SubmissionPagesModel {
    /// After the next page turned out to hold `found`: an empty page ends the reading, as does
    /// enough of submissions, of which no more are kept than asked for, and the last page.
    pub open spec fn read(self, found: Seq<ProblemSubmissionModel>) -> SubmissionPagesModel {
        let all = self.submissions + found;
        if found.len() == 0 {
            SubmissionPagesModel { done: true, ..self }
        } else if self.limit is Some && all.len() >= self.limit->0 {
            SubmissionPagesModel {
                submissions: all.take(self.limit->0 as int),
                done: true,
                ..self
            }
        } else if self.page >= self.max_pages {
            SubmissionPagesModel { submissions: all, done: true, ..self }
        } else {
            SubmissionPagesModel { submissions: all, page: (self.page + 1) as u32, ..self }
        }
    }
}

impl SubmissionPages {
    /// Nothing is read yet.
    pub fn new(max_pages: u32, limit: Option<usize>) -> (r: Self)
        ensures
            r@ == first_page(max_pages, limit),
    {
        let r = SubmissionPages {
            page: 1,
            max_pages: if max_pages > 1 {
                max_pages
            } else {
                1
            },
            limit: match limit {
                Some(limit) => Some(
                    if limit > 1 {
                        limit
                    } else {
                        1
                    },
                ),
                None => None,
            },
            submissions: Vec::new(),
            done: false,
        };
        assert(r@ =~= first_page(max_pages, limit));
        r
    }

    /// The next page holds `found`.
    pub fn read(&mut self, found: Vec<ProblemSubmission>)
        requires
            old(self)@.submissions.len() + found@.len() <= usize::MAX,
        ensures
            final(self)@ == old(self)@.read(found.deep_view()),
    {
        let ghost start = self@;
        let ghost added = found.deep_view();
        if found.len() == 0 {
            self.done = true;
            return ;
        }
        let mut found = found;
        self.submissions.append(&mut found);
        assert(self.submissions.deep_view() =~= start.submissions + added);
        if let Some(limit) = self.limit {
            if self.submissions.len() >= limit {
                self.submissions.truncate(limit);
                assert(self.submissions.deep_view() =~= (start.submissions + added).take(
                    limit as int,
                ));
                self.done = true;
                return ;
            }
        }
        if self.page >= self.max_pages {
            self.done = true;
        } else {
            self.page = self.page + 1;
        }
    }
}

/// All that is kept after the given pages, the reading of which stops when it is done.
pub open spec fn after_pages(
    state: SubmissionPagesModel,
    pages: Seq<Seq<ProblemSubmissionModel>>,
) -> SubmissionPagesModel
    decreases pages.len(),
{
    if pages.len() == 0 || state.done {
        state
    } else {
        after_pages(state.read(pages[0]), pages.skip(1))
    }
}

/// No more submissions are kept than asked for, and no page beyond the last one is asked for.
pub proof fn limits_are_kept(
    max_pages: u32,
    limit: Option<usize>,
    pages: Seq<Seq<ProblemSubmissionModel>>,
)
    ensures
        ({
            let state = after_pages(first_page(max_pages, limit), pages);
            &&& limit is Some ==> state.submissions.len() <= first_page(max_pages, limit).limit->0
            &&& state.page <= first_page(max_pages, limit).max_pages
            &&& state.done || pages.len() < first_page(max_pages, limit).max_pages
        }),
{
    limits_are_kept_from(first_page(max_pages, limit), pages);
}

proof fn limits_are_kept_from(
    state: SubmissionPagesModel,
    pages: Seq<Seq<ProblemSubmissionModel>>,
)
    requires
        state.limit is Some ==> state.submissions.len() <= state.limit->0,
        1 <= state.page <= state.max_pages,
    ensures
        ({
            let after = after_pages(state, pages);
            &&& after.limit == state.limit
            &&& after.max_pages == state.max_pages
            &&& after.limit is Some ==> after.submissions.len() <= after.limit->0
            &&& after.page <= after.max_pages
            &&& after.done || pages.len() + state.page <= state.max_pages
        }),
    decreases pages.len(),
{
    if pages.len() > 0 && !state.done {
        let next = state.read(pages[0]);
        limits_are_kept_from(next, pages.skip(1));
    }
}

proof fn last_piece(before: Seq<char>, piece: Seq<char>, c: char)
    requires
        !piece.contains(c),
    ensures
        seqs::split_char(before + seq![c] + piece, c).last() == piece,
        seqs::split_char(piece, c).last() == piece,
    decreases before.len(),
{
    seqs::char_from_is_first(piece, c, 0);
    let i = seqs::char_from(piece, c, 0);
    if i < piece.len() {
        assert(piece.contains(piece[i]));
    }
    let s = before + seq![c] + piece;
    let k = seqs::char_from(s, c, 0);
    seqs::char_from_is_first(s, c, 0);
    assert(s[before.len() as int] == c);
    assert(k <= before.len());
    seqs::split_char_len(s.skip(k + 1), c);
    if k == before.len() {
        assert(s.skip(k + 1) =~= piece);
    } else {
        assert(s.skip(k + 1) =~= before.skip(k + 1) + seq![c] + piece);
        last_piece(before.skip(k + 1), piece, c);
    }
}

proof fn numbers_hold_no_slash(n: i64)
    ensures
        !seqs::signed_decimal(n as int).contains('/'),
{
    let s = seqs::signed_decimal(n as int);
    if s.contains('/') {
        let k = choose|k: int| 0 <= k < s.len() && s[k] == '/';
        if n < 0 {
            digits_hold_no_slash((-n) as nat);
            assert(k > 0);
            assert(s[k] == seqs::decimal((-n) as nat)[k - 1]);
        } else {
            digits_hold_no_slash(n as nat);
        }
    }
}

proof fn digits_hold_no_slash(n: nat)
    ensures
        forall|i: int| 0 <= i < seqs::decimal(n).len() ==> #[trigger] seqs::decimal(n)[i] != '/',
    decreases n,
{
    if n >= 10 {
        digits_hold_no_slash(n / 10);
        assert forall|i: int| 0 <= i < seqs::decimal(n).len() implies #[trigger] seqs::decimal(n)[i]
            != '/' by {
            if i < seqs::decimal(n / 10).len() {
                assert(seqs::decimal(n)[i] == seqs::decimal(n / 10)[i]);
            }
        }
    }
}

/// The number of a submission is read out of a link to it: what stands behind the last slash. So the
/// address of a submission tells its number.
pub proof fn link_tells_number(before: Seq<char>, contest_id: Seq<char>, n: i64)
    ensures
        id_of(before + seq!['/'] + seqs::signed_decimal(n as int)) == Some(n),
        id_of(submission_url(contest_id, n as int)) == Some(n),
        seqs::starts_with(
            submission_url(contest_id, n as int),
            "https://atcoder.jp/contests/"@ + contest_id + "/submissions/"@,
        ),
{
    reveal_strlit("/submissions/");
    let digits = seqs::signed_decimal(n as int);
    numbers_hold_no_slash(n);
    seqs::written_number_is_read(n);
    last_piece(before, digits, '/');
    let lead = "https://atcoder.jp/contests/"@ + contest_id + "/submissions"@;
    let url = submission_url(contest_id, n as int);
    reveal_strlit("/submissions");
    assert(url =~= lead + seq!['/'] + digits);
    last_piece(lead, digits, '/');
    let front = "https://atcoder.jp/contests/"@ + contest_id + "/submissions/"@;
    assert(url.subrange(0, front.len() as int) =~= front);
}

/// A row is read as a submission exactly if its link leads to the task, its own link ends in a
/// number and its time can be read: with that number, that time, its verdict without white space
/// around, and its address in the contest.
pub proof fn row_is_read(
    row: Seq<Option<CellModel>>,
    epoch_second: Option<i64>,
    contest_id: Seq<char>,
    problem_id: Seq<char>,
)
    requires
        row.len() == 4,
    ensures
        ({
            let r = row_submission(row, epoch_second, contest_id, problem_id);
            let linked = row[0] is Some && (row[0]->0).0 is Some && row[1] is Some
                && (row[1]->0).0 is Some;
            let number = seqs::parse_i64(seqs::split_char((row[1]->0).0->0, '/').last());
            let path = seqs::before_query((row[0]->0).0->0);
            let task = "/tasks/"@ + problem_id;
            &&& r is Some <==> linked && epoch_second is Some && number is Some && path.len()
                >= task.len() && path.skip(path.len() - task.len()) == task
            &&& r matches Some(submission) ==> {
                &&& submission.id == number->0
                &&& submission.epoch_second == epoch_second->0
                &&& submission.url == "https://atcoder.jp/contests/"@ + contest_id
                    + "/submissions/"@ + seqs::signed_decimal(submission.id as int)
                &&& row[3] is Some ==> submission.verdict == seqs::trim((row[3]->0).1)
                &&& row[3] is None ==> submission.verdict.len() == 0
            }
        }),
{
    let path = seqs::before_query((row[0]->0).0->0);
    let task = "/tasks/"@ + problem_id;
    if path.len() >= task.len() {
        let i = path.len() - task.len();
        assert(path.skip(i) =~= path.subrange(i, i + task.len()));
    }
}

/// The rows of a page are read one by one, in their order, and their times by the time in the third
/// of the elements that are read.
pub proof fn rows_are_read_in_order(
    first: Seq<Seq<Option<CellModel>>>,
    row: Seq<Option<CellModel>>,
    rest: Seq<Seq<Option<CellModel>>>,
    contest_id: Seq<char>,
    problem_id: Seq<char>,
)
    ensures
        rows_submissions(first + rest, contest_id, problem_id) == rows_submissions(
            first,
            contest_id,
            problem_id,
        ) + rows_submissions(rest, contest_id, problem_id),
        ({
            let time = match row[2] {
                Some(cell) => outside::offset_time(
                    seqs::trim(cell.1),
                    "[year]-[month]-[day] [hour]:[minute]:[second][offset_hour][offset_minute]"@,
                ),
                None => None,
            };
            match row_submission(row, time, contest_id, problem_id) {
                Some(submission) => rows_submissions(seq![row], contest_id, problem_id) == seq![
                    submission,
                ],
                None => rows_submissions(seq![row], contest_id, problem_id).len() == 0,
            }
        }),
    decreases rest.len(),
{
    reveal_with_fuel(rows_submissions, 2);
    assert(seq![row].drop_last() =~= seq![]);
    if rest.len() == 0 {
        assert(first + rest =~= first);
        assert(rows_submissions(first + rest, contest_id, problem_id) =~= rows_submissions(
            first,
            contest_id,
            problem_id,
        ) + rows_submissions(rest, contest_id, problem_id));
    } else {
        assert((first + rest).drop_last() =~= first + rest.drop_last());
        rows_are_read_in_order(first, row, rest.drop_last(), contest_id, problem_id);
        assert(rows_submissions(first + rest, contest_id, problem_id) =~= rows_submissions(
            first,
            contest_id,
            problem_id,
        ) + rows_submissions(rest, contest_id, problem_id));
    }
}

/// The source of a submission is shown as it stands on the page, and an empty one is none.
pub proof fn source_is_shown(source: Seq<char>)
    ensures
        source.len() > 0 ==> shown_source(Some(Some(source))) == Ok::<Seq<char>, PageError>(source),
        source.len() == 0 ==> shown_source(Some(Some(source))) == Err::<Seq<char>, PageError>(
            PageError::SourceNotFound,
        ),
        shown_source(Some(None)) == Err::<Seq<char>, PageError>(PageError::SourceNotFound),
        shown_source(None) == Err::<Seq<char>, PageError>(PageError::Selector),
{
}

/// Submissions can be asked for exactly where the user, the contest and the problem are known, and
/// what is missing first is what is told.
pub proof fn requests_are_complete(
    user: Seq<char>,
    contest_id: Seq<char>,
    problem_id: Seq<char>,
)
    ensures
        request_problem(user, contest_id, problem_id) is None <==> !seqs::is_blank(user)
            && !seqs::is_blank(contest_id) && !seqs::is_blank(problem_id),
        request_problem(user, contest_id, problem_id) == Some(RequestError::NoUser)
            <==> seqs::is_blank(user),
        request_problem(user, contest_id, problem_id) == Some(RequestError::NoContest)
            <==> !seqs::is_blank(user) && seqs::is_blank(contest_id),
        request_problem(user, contest_id, problem_id) == Some(RequestError::NoProblem)
            <==> !seqs::is_blank(user) && !seqs::is_blank(contest_id) && seqs::is_blank(problem_id),
{
}

/// The address of a page of submissions is in the contest, and asks for the user, the task and the
/// number of the page.
pub proof fn page_address_asks(
    contest_id: Seq<char>,
    user: Seq<char>,
    problem_id: Seq<char>,
    page: nat,
)
    ensures
        ({
            let url = page_url(contest_id, user, problem_id, page);
            &&& seqs::starts_with(
                url,
                "https://atcoder.jp/contests/"@ + contest_id + "/submissions?"@,
            )
            &&& seqs::contains(url, "f.User="@ + user + "&"@)
            &&& seqs::contains(url, "&f.Task="@ + problem_id + "&"@)
            &&& seqs::ends_with(url, "&page="@ + seqs::decimal(page))
        }),
{
    reveal_strlit("/submissions?f.User=");
    reveal_strlit("/submissions?");
    reveal_strlit("f.User=");
    reveal_strlit("&");
    reveal_strlit("&f.Task=");
    reveal_strlit("f.Task=");
    reveal_strlit("&page=");
    reveal_strlit("page=");
    let url = page_url(contest_id, user, problem_id, page);
    let site = "https://atcoder.jp/contests/"@ + contest_id;
    let digits = seqs::decimal(page);
    assert("/submissions?f.User="@ =~= "/submissions?"@ + "f.User="@);
    assert("&f.Task="@ =~= "&"@ + "f.Task="@);
    assert("&page="@ =~= "&"@ + "page="@);
    let none: Seq<char> = seq![];
    let a = site + "/submissions?"@;
    let b = "f.User="@ + user + "&"@;
    let c = "f.Task="@ + problem_id + "&page="@ + digits;
    assert(url =~= a + b + c);
    seqs::found_text_stands_inside(url, a, none, b + c);
    assert(url =~= a + (b + c));
    seqs::found_text_stands_inside(url, b, a, c);
    let d = a + "f.User="@ + user;
    let e = "&f.Task="@ + problem_id + "&"@;
    let f = "page="@ + digits;
    assert(url =~= d + e + f);
    seqs::found_text_stands_inside(url, e, d, f);
    let g = d + "&f.Task="@ + problem_id;
    let h = "&page="@ + digits;
    assert(url =~= g + h);
    seqs::found_text_stands_inside(url, h, g, none);
}

spec fn holds_no_session(file: SessionFile) -> bool {
    match file {
        SessionFile::Missing => true,
        SessionFile::Unreadable => false,
        SessionFile::Content(content) => seqs::is_blank(content@),
    }
}

proof fn files_are_passed(files: Seq<SessionFile>, k: int)
    requires
        0 <= k <= files.len(),
        forall|i: int| 0 <= i < k ==> holds_no_session(#[trigger] files[i]),
    ensures
        session_of_files(files) == session_of_files(files.skip(k)),
    decreases k,
{
    if k > 0 {
        let rest = files.skip(1);
        assert(holds_no_session(files[0]));
        assert forall|i: int| 0 <= i < k - 1 implies holds_no_session(#[trigger] rest[i]) by {
            assert(rest[i] == files[i + 1]);
        }
        files_are_passed(rest, k - 1);
        assert(rest.skip(k - 1) =~= files.skip(k));
    } else {
        assert(files.skip(0) =~= files);
    }
}

/// The session is that of the environment, if there is one there. Else it is that of the first file
/// that is neither missing nor blank: what it holds without white space around, or an error, if it
/// cannot be read. If there is no such file, there is no session.
pub proof fn first_session_is_used(
    environment: Option<Seq<char>>,
    files: Seq<SessionFile>,
    k: int,
)
    requires
        0 <= k <= files.len(),
        forall|i: int|
            0 <= i < k ==> {
                ||| (#[trigger] files[i]) is Missing
                ||| files[i] is Content && seqs::is_blank((files[i]->Content_0)@)
            },
    ensures
        environment is Some && !seqs::is_blank(environment->0) ==> configured_session(
            environment,
            files,
        ) == Ok::<Option<Seq<char>>, ()>(Some(seqs::trim(environment->0))),
        environment is None || seqs::is_blank(environment->0) ==> {
            let r = configured_session(environment, files);
            &&& k == files.len() ==> r == Ok::<Option<Seq<char>>, ()>(None)
            &&& k < files.len() && files[k] is Unreadable ==> r is Err
            &&& k < files.len() && files[k] is Content && !seqs::is_blank(
                (files[k]->Content_0)@,
            ) ==> r == Ok::<Option<Seq<char>>, ()>(Some(seqs::trim((files[k]->Content_0)@)))
        },
{
    assert forall|i: int| 0 <= i < k implies holds_no_session(#[trigger] files[i]) by {
        assert(files[i] is Missing || files[i] is Content);
    }
    files_are_passed(files, k);
    if k < files.len() {
        assert(files.skip(k)[0] == files[k]);
    }
}

/// What a page lists is added to what was read before, as far as it is asked for. The reading is
/// done with an empty page, with as many submissions as asked for, or with the last page; else the
/// next page follows.
pub proof fn page_is_taken_in(pages: SubmissionPagesModel, found: Seq<ProblemSubmissionModel>)
    requires
        1 <= pages.page,
        pages.limit is Some ==> pages.submissions.len() <= pages.limit->0,
    ensures
        ({
            let next = pages.read(found);
            let enough = pages.limit is Some && pages.submissions.len() + found.len()
                >= pages.limit->0;
            &&& found.len() == 0 ==> next.done && next.submissions == pages.submissions
            &&& found.len() > 0 && !enough ==> next.submissions == pages.submissions + found
            &&& found.len() > 0 && enough ==> next.submissions == (pages.submissions + found).take(
                pages.limit->0 as int,
            )
            &&& found.len() > 0 ==> (next.done <==> pages.done || enough || pages.page
                >= pages.max_pages)
            &&& found.len() > 0 && !enough && pages.page < pages.max_pages ==> next.page
                == pages.page + 1
            &&& next.limit == pages.limit && next.max_pages == pages.max_pages
        }),
{
}

/// At least one page is read, and at least one submission is asked for, whatever was asked for.
pub proof fn something_is_read(max_pages: u32, limit: Option<usize>)
    ensures
        ({
            let start = first_page(max_pages, limit);
            &&& start.page == 1 && !start.done && start.submissions.len() == 0
            &&& start.max_pages >= 1 && start.max_pages >= max_pages
            &&& max_pages >= 1 ==> start.max_pages == max_pages
            &&& start.max_pages <= max_pages || start.max_pages == 1
            &&& start.limit is Some <==> limit is Some
            &&& limit is Some && limit->0 >= 1 ==> start.limit == limit
            &&& limit is Some && limit->0 == 0 ==> start.limit == Some(1usize)
        }),
{
}

/// The models hold what the values hold, each part under its own name.
pub proof fn models_hold_their_parts(problem_submission: ProblemSubmission)
    ensures
        problem_submission.deep_view() == (ProblemSubmissionModel {
            id: problem_submission.id,
            epoch_second: problem_submission.epoch_second,
            verdict: problem_submission.verdict@,
            url: problem_submission.url@,
        }),
{
}
} // verus!
