//! What the server reads from AtCoder: the submissions of the players of a match.

use vstd::prelude::*;

use crate::outside;
use crate::outside::Cell;
use crate::problems;
use crate::seqs;
use crate::server::model::{AtCoderSubmission, AtCoderSubmissionModel};
use crate::submissions;
use crate::submissions::{CellModel, PageError, RequestError};
use crate::text;

verus! {

/// The elements of a row that are read: the link to the submission, the time and the verdict.
pub open spec fn cell_selectors() -> Seq<Seq<char>> {
    seq![
        "td:last-child a.submission-details-link"@,
        "td:first-child time"@,
        "td:nth-child(7) span"@,
    ]
}

/// The submission in a row, if its link and time can be read; `epoch_second` is what its time reads
/// as.
pub open spec fn row_submission(
    row: Seq<Option<CellModel>>,
    epoch_second: Option<i64>,
    problem_id: Seq<char>,
) -> Option<AtCoderSubmissionModel> {
    match (submissions::href_of(row[0]), epoch_second) {
        (Some(href), Some(epoch_second)) => match submissions::id_of(href) {
            Some(id) => Some(
                AtCoderSubmissionModel {
                    id,
                    epoch_second,
                    problem_id,
                    result: submissions::text_of(row[2]),
                    source_code: None,
                },
            ),
            None => None,
        },
        _ => None,
    }
}

/// The submissions in `rows`, in order.
pub open spec fn rows_submissions(
    rows: Seq<Seq<Option<CellModel>>>,
    problem_id: Seq<char>,
) -> Seq<AtCoderSubmissionModel>
    decreases rows.len(),
{
    if rows.len() == 0 {
        seq![]
    } else {
        let before = rows_submissions(rows.drop_last(), problem_id);
        match row_submission(rows.last(), submissions::row_time(rows.last()[1]), problem_id) {
            Some(submission) => before.push(submission),
            None => before,
        }
    }
}

/// The submission in a row of the elements that are read, given what its time reads as.
pub fn submission_from_row(
    row: &Vec<Option<Cell>>,
    epoch_second: Option<i64>,
    problem_id: &str,
) -> (r: Option<AtCoderSubmission>)
    requires
        row@.len() == 3,
    ensures
        r.deep_view() == row_submission(row.deep_view(), epoch_second, problem_id@),
{
    let (href, epoch_second) = match (&row[0], epoch_second) {
        (Some((Some(href), _)), Some(second)) => (href, second),
        _ => {
            return None;
        },
    };
    match submissions::submission_id(href.as_str()) {
        None => None,
        Some(id) => Some(
            AtCoderSubmission {
                id,
                epoch_second,
                problem_id: problem_id.to_owned(),
                result: submissions::cell_text(&row[2]),
                source_code: None,
            },
        ),
    }
}

/// The submissions in `rows`, in order.
pub fn submissions_from_rows(rows: &Vec<Vec<Option<Cell>>>, problem_id: &str) -> (r: Vec<
    AtCoderSubmission,
>)
    requires
        forall|i: int| 0 <= i < rows@.len() ==> (#[trigger] rows@[i])@.len() == 3,
    ensures
        r.deep_view() == rows_submissions(rows.deep_view(), problem_id@),
{
    let ghost all = rows.deep_view();
    let mut out: Vec<AtCoderSubmission> = Vec::new();
    let mut i: usize = 0;
    assert(out.deep_view() =~= rows_submissions(all.take(0), problem_id@));
    while i < rows.len()
        invariant
            i <= rows@.len(),
            all == rows.deep_view(),
            forall|k: int| 0 <= k < rows@.len() ==> (#[trigger] rows@[k])@.len() == 3,
            out.deep_view() == rows_submissions(all.take(i as int), problem_id@),
        decreases rows@.len() - i,
    {
        let row = &rows[i];
        let ghost before = out.deep_view();
        proof {
            assert(all.take(i + 1).drop_last() =~= all.take(i as int));
            assert(all.take(i + 1).last() == row.deep_view());
        }
        let epoch_second = submissions::cell_time(&row[1]);
        if let Some(submission) = submission_from_row(row, epoch_second, problem_id) {
            let ghost found = submission.deep_view();
            out.push(submission);
            assert(out.deep_view() =~= before.push(found));
        }
        i += 1;
    }
    assert(all.take(i as int) =~= all);
    out
}

/// The submissions that a page lists, taken to be for the problem `problem_id`.
pub fn parse_atcoder_submissions_page(html: &str, problem_id: &str) -> (r: Result<
    Vec<AtCoderSubmission>,
    PageError,
>)
    ensures
        html@.len() > outside::MAX_PAGE_LENGTH ==> r matches Err(PageError::TooLong),
        html@.len() <= outside::MAX_PAGE_LENGTH ==> match outside::selected_cells(
            html@,
            "table.table-bordered tbody tr"@,
            cell_selectors(),
        ) {
            None => r matches Err(PageError::Selector),
            Some(rows) => if outside::is_time_format(outside::date_time_format()) {
                r matches Ok(found) && found.deep_view() == rows_submissions(rows, problem_id@)
            } else {
                r matches Err(PageError::TimeFormat)
            },
        },
{
    if !outside::fits_parser(html) {
        return Err(PageError::TooLong);
    }
    let mut selectors: Vec<String> = Vec::new();
    selectors.push("td:last-child a.submission-details-link".to_owned());
    selectors.push("td:first-child time".to_owned());
    selectors.push("td:nth-child(7) span".to_owned());
    assert(selectors.deep_view() =~= cell_selectors());
    let rows = match outside::select_cells(html, "table.table-bordered tbody tr", &selectors) {
        None => {
            return Err(PageError::Selector);
        },
        Some(rows) => rows,
    };
    if !outside::check_time_format(
        "[year]-[month]-[day] [hour]:[minute]:[second][offset_hour][offset_minute]",
    ) {
        return Err(PageError::TimeFormat);
    }
    Ok(submissions_from_rows(&rows, problem_id))
}

/// Hard cap on the pages of submissions read per user and polling pass. The newest submissions come
/// first, so what decides a match is on the first pages; this is only a safety net against a user
/// with a very long history.
pub const MAX_SUBMISSION_PAGES: u32 = 5;

/// The submissions of a player while they are read page by page.
pub struct PlayerPages {
    /// The page to read next.
    pub page: u32,
    pub submissions: Vec<AtCoderSubmission>,
    /// Whether there is nothing more to read.
    pub done: bool,
}

/// What `PlayerPages` holds.
#[verifier::ext_equal]
pub struct PlayerPagesModel {
    pub page: u32,
    pub submissions: Seq<AtCoderSubmissionModel>,
    pub done: bool,
}

impl View for PlayerPages {
    type V = PlayerPagesModel;

    open spec fn view(&self) -> PlayerPagesModel {
        PlayerPagesModel {
            page: self.page,
            submissions: self.submissions.deep_view(),
            done: self.done,
        }
    }
}

/// Whether all of `found` were made before `started_at_second`.
pub open spec fn all_old(found: Seq<AtCoderSubmissionModel>, started_at_second: i64) -> bool {
    forall|i: int|
        0 <= i < found.len() ==> (#[trigger] found[i]).epoch_second < started_at_second
}

impl PlayerPagesModel {
    /// After the next page turned out to hold `found`: an empty page ends the reading, as does one
    /// that is older than the match, and the last page.
    pub open spec fn read(self, found: Seq<AtCoderSubmissionModel>, started_at_second: i64) -> Self {
        if found.len() == 0 {
            PlayerPagesModel { done: true, ..self }
        } else if all_old(found, started_at_second) || self.page >= MAX_SUBMISSION_PAGES {
            PlayerPagesModel { submissions: self.submissions + found, done: true, ..self }
        } else {
            PlayerPagesModel {
                submissions: self.submissions + found,
                page: (self.page + 1) as u32,
                ..self
            }
        }
    }
}

impl PlayerPagesModel {
    /// After the pages from the first on turned out to hold `pages`. Once the reading is done, no
    /// more pages are read.
    pub open spec fn read_all(
        self,
        pages: Seq<Seq<AtCoderSubmissionModel>>,
        started_at_second: i64,
    ) -> Self
        decreases pages.len(),
    {
        if pages.len() == 0 {
            self
        } else {
            let before = self.read_all(pages.drop_last(), started_at_second);
            if before.done {
                before
            } else {
                before.read(pages.last(), started_at_second)
            }
        }
    }
}

impl PlayerPages {
    /// Nothing is read yet.
    pub fn new() -> (r: Self)
        ensures
            r@ == (PlayerPagesModel { page: 1, submissions: seq![], done: false }),
    {
        let r = PlayerPages { page: 1, submissions: Vec::new(), done: false };
        assert(r@.submissions =~= seq![]);
        r
    }

    /// The next page holds `found`.
    pub fn read(&mut self, found: Vec<AtCoderSubmission>, started_at_second: i64)
        requires
            old(self)@.submissions.len() + found@.len() <= usize::MAX,
        ensures
            final(self)@ == old(self)@.read(found.deep_view(), started_at_second),
    {
        let ghost start = self@;
        let ghost added = found.deep_view();
        if found.len() == 0 {
            self.done = true;
            return ;
        }
        let mut old_only: bool = true;
        let mut i: usize = 0;
        while i < found.len()
            invariant
                i <= found@.len(),
                added == found.deep_view(),
                old_only == forall|k: int|
                    0 <= k < i ==> (#[trigger] added[k]).epoch_second < started_at_second,
            decreases found@.len() - i,
        {
            assert(added[i as int] == found@[i as int].deep_view());
            if found[i].epoch_second >= started_at_second {
                old_only = false;
            }
            i += 1;
        }
        let mut found = found;
        self.submissions.append(&mut found);
        assert(self.submissions.deep_view() =~= start.submissions + added);
        if old_only || self.page >= MAX_SUBMISSION_PAGES {
            self.done = true;
        } else {
            self.page = self.page + 1;
        }
    }
}

/// What is needed to ask for the submissions of a player: the session, and the contest that the
/// problem belongs to.
pub fn check_player_request(session: &Option<String>, problem_id: &str) -> (r: Result<
    (String, String),
    RequestError,
>)
    ensures
        match r {
            Ok((cookie, contest_id)) => {
                &&& session is Some && !seqs::is_blank(session->0@)
                &&& cookie@ == "REVEL_SESSION="@ + seqs::trim(session->0@)
                &&& problems::contest_of(problem_id@) == Some(contest_id@)
            },
            Err(RequestError::NoSession) => session is None || seqs::is_blank(session->0@),
            Err(RequestError::NoContest) => {
                &&& session is Some && !seqs::is_blank(session->0@)
                &&& problems::contest_of(problem_id@) is None
            },
            Err(_) => false,
        },
{
    let cookie = match session {
        Some(session) if !text::is_blank_str(session.as_str()) => submissions::session_cookie(
            session.as_str(),
        ),
        _ => {
            return Err(RequestError::NoSession);
        },
    };
    match problems::contest_id_from_problem_id(problem_id) {
        None => Err(RequestError::NoContest),
        Some(contest_id) => Ok((cookie, contest_id)),
    }
}

/// Whether `submissions` are listed with the newest first.
pub open spec fn newest_first(submissions: Seq<AtCoderSubmissionModel>) -> bool {
    forall|i: int, j: int|
        0 <= i < j < submissions.len() ==> (#[trigger] submissions[i]).epoch_second >= (
        #[trigger] submissions[j]).epoch_second
}

/// Where the newest submissions come first, reading on after a page that is older than the match
/// could bring nothing that counts: everything on a later page is older, too.
pub proof fn later_pages_are_older(
    found: Seq<AtCoderSubmissionModel>,
    later: Seq<AtCoderSubmissionModel>,
    started_at_second: i64,
)
    requires
        found.len() > 0,
        newest_first(found + later),
        all_old(found, started_at_second),
    ensures
        all_old(later, started_at_second),
{
    let all = found + later;
    assert forall|i: int| 0 <= i < later.len() implies (#[trigger] later[i]).epoch_second
        < started_at_second by {
        assert(all[0] == found[0]);
        assert(all[found.len() + i] == later[i]);
    }
}

/// Whatever the pages hold, a polling pass reads no more of them than the cap: no later page is
/// ever asked for, and the reading is done once that many were read.
pub proof fn page_cap_is_kept(pages: Seq<Seq<AtCoderSubmissionModel>>, started_at_second: i64)
    ensures
        ({
            let start = PlayerPagesModel { page: 1, submissions: seq![], done: false };
            let now = start.read_all(pages, started_at_second);
            &&& 1 <= now.page <= MAX_SUBMISSION_PAGES
            &&& !now.done ==> now.page == pages.len() + 1
            &&& pages.len() >= MAX_SUBMISSION_PAGES ==> now.done
        }),
    decreases pages.len(),
{
    if pages.len() > 0 {
        page_cap_is_kept(pages.drop_last(), started_at_second);
    }
}

/// A row is read as a submission exactly if its link ends in a number and its time can be read: with
/// that number, that time and its verdict as it stands there, and for the problem that was asked
/// for.
pub proof fn server_row_is_read(
    row: Seq<Option<CellModel>>,
    epoch_second: Option<i64>,
    problem_id: Seq<char>,
)
    requires
        row.len() == 3,
    ensures
        ({
            let r = row_submission(row, epoch_second, problem_id);
            let linked = row[0] is Some && (row[0]->0).0 is Some;
            let number = seqs::parse_i64(seqs::split_char((row[0]->0).0->0, '/').last());
            &&& r is Some <==> linked && epoch_second is Some && number is Some
            &&& r matches Some(submission) ==> {
                &&& submission.id == number->0
                &&& submission.epoch_second == epoch_second->0
                &&& submission.problem_id == problem_id
                &&& submission.source_code is None
                &&& row[2] is Some ==> submission.result == (row[2]->0).1
                &&& row[2] is None ==> submission.result.len() == 0
            }
        }),
{
}

/// The rows of a page are read one by one, in their order, and their times by the time in the second
/// of the elements that are read.
pub proof fn server_rows_are_read_in_order(
    first: Seq<Seq<Option<CellModel>>>,
    row: Seq<Option<CellModel>>,
    rest: Seq<Seq<Option<CellModel>>>,
    problem_id: Seq<char>,
)
    ensures
        rows_submissions(first + rest, problem_id) == rows_submissions(first, problem_id)
            + rows_submissions(rest, problem_id),
        ({
            let time = match row[1] {
                Some(cell) => outside::offset_time(
                    seqs::trim(cell.1),
                    "[year]-[month]-[day] [hour]:[minute]:[second][offset_hour][offset_minute]"@,
                ),
                None => None,
            };
            match row_submission(row, time, problem_id) {
                Some(submission) => rows_submissions(seq![row], problem_id) == seq![submission],
                None => rows_submissions(seq![row], problem_id).len() == 0,
            }
        }),
    decreases rest.len(),
{
    reveal_with_fuel(rows_submissions, 2);
    assert(seq![row].drop_last() =~= seq![]);
    if rest.len() == 0 {
        assert(first + rest =~= first);
        assert(rows_submissions(first + rest, problem_id) =~= rows_submissions(first, problem_id)
            + rows_submissions(rest, problem_id));
    } else {
        assert((first + rest).drop_last() =~= first + rest.drop_last());
        server_rows_are_read_in_order(first, row, rest.drop_last(), problem_id);
        assert(rows_submissions(first + rest, problem_id) =~= rows_submissions(first, problem_id)
            + rows_submissions(rest, problem_id));
    }
}

/// What a page lists is added to what was read before. The reading is done with an empty page, with
/// one on which everything is older than the match, or with the last page; else the next page
/// follows.
pub proof fn player_page_is_taken_in(
    pages: PlayerPagesModel,
    found: Seq<AtCoderSubmissionModel>,
    started_at_second: i64,
)
    requires
        !pages.done,
        1 <= pages.page <= 5,
    ensures
        ({
            let next = pages.read(found, started_at_second);
            let newer = exists|i: int|
                0 <= i < found.len() && (#[trigger] found[i]).epoch_second >= started_at_second;
            &&& next.submissions == pages.submissions + found
            &&& next.done <==> !newer || pages.page == 5
            &&& !next.done ==> next.page == pages.page + 1
            &&& next.done ==> next.page == pages.page
        }),
{
    if found.len() == 0 {
        assert(pages.submissions + found =~= pages.submissions);
    }
}

/// Whether something on a page was made since the match started.
pub open spec fn holds_newer(page: Seq<AtCoderSubmissionModel>, started_at_second: i64) -> bool {
    exists|i: int| 0 <= i < page.len() && (#[trigger] page[i]).epoch_second >= started_at_second
}

/// Nothing that counts is missed: as long as each page before holds something made since the match
/// started, and there are no more pages than are read, everything on the next one is read, too.
pub proof fn nothing_since_start_is_missed(
    pages: Seq<Seq<AtCoderSubmissionModel>>,
    k: int,
    i: int,
    started_at_second: i64,
)
    requires
        0 <= k < pages.len() < 5,
        0 <= i < pages[k].len(),
        forall|j: int| 0 <= j < k ==> holds_newer(#[trigger] pages[j], started_at_second),
    ensures
        ({
            let start = PlayerPagesModel { page: 1, submissions: seq![], done: false };
            start.read_all(pages, started_at_second).submissions.contains(pages[k][i])
        }),
    decreases pages.len(),
{
    let start = PlayerPagesModel { page: 1, submissions: seq![], done: false };
    let front = pages.drop_last();
    let before = start.read_all(front, started_at_second);
    let now = start.read_all(pages, started_at_second);
    page_cap_is_kept(front, started_at_second);
    assert forall|j: int| 0 <= j < k implies holds_newer(#[trigger] front[j], started_at_second) by {
        assert(front[j] == pages[j]);
    }
    if k < pages.len() - 1 {
        nothing_since_start_is_missed(front, k, i, started_at_second);
        let m = choose|m: int|
            0 <= m < before.submissions.len() && before.submissions[m] == front[k][i];
        assert(now.submissions[m] == pages[k][i]);
    } else {
        not_done_before(front, started_at_second);
        assert(pages.last() == pages[k]);
        assert(now.submissions =~= before.submissions + pages[k]);
        assert(now.submissions[before.submissions.len() + i] == pages[k][i]);
    }
}

proof fn not_done_before(pages: Seq<Seq<AtCoderSubmissionModel>>, started_at_second: i64)
    requires
        pages.len() < 5,
        forall|j: int| 0 <= j < pages.len() ==> holds_newer(#[trigger] pages[j], started_at_second),
    ensures
        ({
            let start = PlayerPagesModel { page: 1, submissions: seq![], done: false };
            !start.read_all(pages, started_at_second).done
        }),
    decreases pages.len(),
{
    if pages.len() > 0 {
        let front = pages.drop_last();
        assert forall|j: int| 0 <= j < front.len() implies holds_newer(
            #[trigger] front[j],
            started_at_second,
        ) by {
            assert(front[j] == pages[j]);
        }
        not_done_before(front, started_at_second);
        page_cap_is_kept(front, started_at_second);
        assert(holds_newer(pages[pages.len() - 1], started_at_second));
    }
}

} // verus!
