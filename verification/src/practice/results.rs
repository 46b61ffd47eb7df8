//! What is shown of tests and submissions while practising.

use vstd::prelude::*;

use crate::duel::commands;
use crate::duel::wording;
use crate::output;
use crate::output::{
    plain_item, sample_test_summary, CaseResult, CaseResultModel, CommandOutputDetail,
    CommandOutputDetailModel, CommandOutputDetailSection, CommandOutputDetailSectionModel,
    CommandOutputItem, CommandOutputItemModel, CommandOutputItemStatus,
};
use crate::outside;
use crate::problems::{Problem, ProblemModel};
use crate::runner::{ProcessOutput, SampleResultModel, SampleTestReport};
use crate::seqs;
use crate::submissions::{ProblemSubmission, ProblemSubmissionModel};
use crate::text;

verus! {

/// How long ago something was, in English.
pub open spec fn ago(delta: nat) -> Seq<char> {
    if delta < 60 {
        seqs::decimal(delta) + "s ago"@
    } else if delta < 3600 {
        seqs::decimal(delta / 60) + "m ago"@
    } else if delta < 86400 {
        seqs::decimal(delta / 3600) + "h ago"@
    } else if delta < 604800 {
        seqs::decimal(delta / 86400) + "d ago"@
    } else if delta < 2592000 {
        seqs::decimal(delta / 604800) + "w ago"@
    } else if delta < 31536000 {
        seqs::decimal(delta / 2592000) + "mo ago"@
    } else {
        seqs::decimal(delta / 31536000) + "y ago"@
    }
}

/// How long before `now` the second `epoch_second` was, in English.
pub fn format_relative_at(now: i64, epoch_second: i64) -> (r: String)
    ensures
        r@ == ago(wording::seconds_since(now, epoch_second)),
{
    let delta: u64 = wording::elapsed_seconds(now, epoch_second);
    if delta < 60 {
        wording::number(delta).concat("s ago")
    } else if delta < 3600 {
        wording::number(delta / 60).concat("m ago")
    } else if delta < 86400 {
        wording::number(delta / 3600).concat("h ago")
    } else if delta < 604800 {
        wording::number(delta / 86400).concat("d ago")
    } else if delta < 2592000 {
        wording::number(delta / 604800).concat("w ago")
    } else if delta < 31536000 {
        wording::number(delta / 2592000).concat("mo ago")
    } else {
        wording::number(delta / 31536000).concat("y ago")
    }
}

/// How long ago the second `epoch_second` was, in English.
pub fn format_relative(epoch_second: i64) -> (r: String)
    ensures
        exists|now: i64| r@ == ago(#[trigger] wording::seconds_since(now, epoch_second)),
{
    let now: i64 = outside::current_second();
    let r = format_relative_at(now, epoch_second);
    assert(r@ == ago(wording::seconds_since(now, epoch_second)));
    r
}

/// A submission as a row of a list.
pub open spec fn submission_row(now: i64, submission: ProblemSubmissionModel) -> Seq<char> {
    seqs::pad_right(commands::shown_verdict(submission.verdict), ' ', 8) + " "@ + seqs::pad_right(
        ago(wording::seconds_since(now, submission.epoch_second)),
        ' ',
        8,
    ) + " #"@ + seqs::signed_decimal(submission.id as int) + "  "@ + submission.url
}

/// Submissions, each as a row.
pub open spec fn submission_rows(now: i64, submissions: Seq<ProblemSubmissionModel>) -> Seq<char> {
    seqs::join(
        Seq::new(submissions.len(), |i: int| submission_row(now, submissions[i])),
        "\n"@,
    )
}

fn verdict_text(verdict: &str) -> (r: String)
    ensures
        r@ == commands::shown_verdict(verdict@),
{
    if text::is_blank_str(verdict) {
        "Unknown".to_owned()
    } else {
        text::trim_str(verdict)
    }
}

fn padded(content: &str) -> (r: String)
    ensures
        r@ == seqs::pad_right(content@, ' ', 8),
{
    let chars = text::chars_of(content);
    let wide = text::pad_right(&chars, ' ', 8);
    text::string_of(&wide)
}

fn submission_row_text(now: i64, submission: &ProblemSubmission) -> (r: String)
    ensures
        r@ == submission_row(now, submission.deep_view()),
{
    let verdict = verdict_text(submission.verdict.as_str());
    let when = format_relative_at(now, submission.epoch_second);
    let when = padded(when.as_str());
    let id = wording::signed_number(submission.id);
    padded(verdict.as_str()).concat(" ").concat(when.as_str()).concat(" #").concat(
        id.as_str(),
    ).concat("  ").concat(submission.url.as_str())
}

/// Submissions at `now`, each as a row.
pub fn format_submission_rows_at(now: i64, submissions: &Vec<ProblemSubmission>) -> (r: String)
    ensures
        r@ == submission_rows(now, submissions.deep_view()),
{
    let ghost all = submissions.deep_view();
    let ghost texts = Seq::new(all.len(), |i: int| submission_row(now, all[i]));
    let mut rows: Vec<String> = Vec::new();
    let mut i: usize = 0;
    while i < submissions.len()
        invariant
            i <= submissions@.len(),
            all == submissions.deep_view(),
            texts == Seq::new(all.len(), |k: int| submission_row(now, all[k])),
            seqs::strs(rows@) == texts.take(i as int),
        decreases submissions@.len() - i,
    {
        let ghost before = seqs::strs(rows@);
        assert(all[i as int] == submissions@[i as int].deep_view());
        rows.push(submission_row_text(now, &submissions[i]));
        assert(seqs::strs(rows@) =~= before.push(texts[i as int]));
        i += 1;
    }
    assert(texts.take(i as int) =~= texts);
    text::join_strings(&rows, "\n")
}

/// Submissions now, each as a row.
pub fn format_submission_rows(submissions: &Vec<ProblemSubmission>) -> (r: String)
    ensures
        exists|now: i64| r@ == #[trigger] submission_rows(now, submissions.deep_view()),
{
    let now: i64 = outside::current_second();
    format_submission_rows_at(now, submissions)
}

/// Whether one of the submissions is accepted.
pub open spec fn has_accepted(submissions: Seq<ProblemSubmissionModel>) -> bool {
    exists|i: int|
        0 <= i < submissions.len() && seqs::trim((#[trigger] submissions[i]).verdict) == "AC"@
}

/// What is shown of the submissions of a user for a problem, or of the error with which they could
/// not be had.
pub open spec fn submissions_item(
    now: i64,
    atcoder_user: Seq<char>,
    problem_id: Seq<char>,
    result: Result<Seq<ProblemSubmissionModel>, Seq<char>>,
) -> CommandOutputItemModel {
    match result {
        Ok(submissions) => if submissions.len() == 0 {
            output::single_item(
                "Submissions"@,
                CommandOutputItemStatus::Warning,
                "No recent submissions found for "@ + atcoder_user + " on "@ + problem_id + "."@,
            )
        } else {
            CommandOutputItemModel {
                label: "Submissions"@,
                status: if has_accepted(submissions) {
                    CommandOutputItemStatus::Passed
                } else {
                    CommandOutputItemStatus::Warning
                },
                detail: Some(
                    CommandOutputDetailModel {
                        heading: "Fetched "@ + seqs::decimal(submissions.len())
                            + " recent submission"@ + (if submissions.len() == 1 {
                            seq![]
                        } else {
                            "s"@
                        }) + " for "@ + atcoder_user + " on "@ + problem_id + "."@,
                        diff: None,
                        sections: seq![
                            CommandOutputDetailSectionModel {
                                title: "Recent submissions"@,
                                body: submission_rows(now, submissions),
                            },
                        ],
                    },
                ),
            }
        },
        Err(error) => output::single_item(
            "Submissions"@,
            CommandOutputItemStatus::Failed,
            "Could not fetch submissions:\n"@ + error,
        ),
    }
}

/// The submissions that were fetched, or the error with which they could not be.
pub open spec fn fetched_model(result: Result<Vec<ProblemSubmission>, String>) -> Result<
    Seq<ProblemSubmissionModel>,
    Seq<char>,
> {
    match result {
        Ok(submissions) => Ok(submissions.deep_view()),
        Err(error) => Err(error@),
    }
}

fn any_accepted(submissions: &Vec<ProblemSubmission>) -> (r: bool)
    ensures
        r == has_accepted(submissions.deep_view()),
{
    let ghost all = submissions.deep_view();
    let mut i: usize = 0;
    while i < submissions.len()
        invariant
            i <= submissions@.len(),
            all == submissions.deep_view(),
            forall|k: int| 0 <= k < i ==> seqs::trim((#[trigger] all[k]).verdict) != "AC"@,
        decreases submissions@.len() - i,
    {
        assert(all[i as int] == submissions@[i as int].deep_view());
        let verdict = text::trim_str(submissions[i].verdict.as_str());
        if text::same(verdict.as_str(), "AC") {
            return true;
        }
        i += 1;
    }
    false
}

/// What is shown at `now` of the submissions of a user for a problem, or of the error with which
/// they could not be had.
pub fn submissions_output_item_at(
    now: i64,
    atcoder_user: &str,
    problem_id: &str,
    result: Result<Vec<ProblemSubmission>, String>,
) -> (r: CommandOutputItem)
    ensures
        r.deep_view() == submissions_item(
            now,
            atcoder_user@,
            problem_id@,
            fetched_model(result),
        ),
{
    match result {
        Ok(submissions) => {
            if submissions.len() == 0 {
                let heading = "No recent submissions found for ".to_owned().concat(
                    atcoder_user,
                ).concat(" on ").concat(problem_id).concat(".");
                return plain_item("Submissions", CommandOutputItemStatus::Warning, heading);
            }
            let status = if any_accepted(&submissions) {
                CommandOutputItemStatus::Passed
            } else {
                CommandOutputItemStatus::Warning
            };
            let count = wording::number(submissions.len() as u64);
            let plural = if submissions.len() == 1 {
                let none = String::new();
                assert(none@ =~= seq![]);
                none
            } else {
                "s".to_owned()
            };
            let heading = "Fetched ".to_owned().concat(count.as_str()).concat(
                " recent submission",
            ).concat(plural.as_str()).concat(" for ").concat(atcoder_user).concat(" on ").concat(
                problem_id,
            ).concat(".");
            let mut sections: Vec<CommandOutputDetailSection> = Vec::new();
            sections.push(
                CommandOutputDetailSection {
                    title: "Recent submissions".to_owned(),
                    body: format_submission_rows_at(now, &submissions),
                },
            );
            assert(sections.deep_view() =~= seq![
                CommandOutputDetailSectionModel {
                    title: "Recent submissions"@,
                    body: submission_rows(now, submissions.deep_view()),
                },
            ]);
            CommandOutputItem {
                label: "Submissions".to_owned(),
                status,
                detail: Some(CommandOutputDetail::with_sections(heading, sections)),
            }
        },
        Err(error) => {
            let heading = "Could not fetch submissions:\n".to_owned().concat(error.as_str());
            plain_item("Submissions", CommandOutputItemStatus::Failed, heading)
        },
    }
}

/// What is shown now of the submissions of a user for a problem, or of the error with which they
/// could not be had.
pub fn submissions_output_item(
    atcoder_user: &str,
    problem_id: &str,
    result: Result<Vec<ProblemSubmission>, String>,
) -> (r: CommandOutputItem)
    ensures
        exists|now: i64|
            r.deep_view() == #[trigger] submissions_item(
                now,
                atcoder_user@,
                problem_id@,
                fetched_model(result),
            ),
{
    let now: i64 = outside::current_second();
    submissions_output_item_at(now, atcoder_user, problem_id, result)
}

/// Whether a submission was made before another; of two at the same second, the one with the
/// smaller id.
pub open spec fn earlier(a: ProblemSubmissionModel, b: ProblemSubmissionModel) -> bool {
    a.epoch_second < b.epoch_second || (a.epoch_second == b.epoch_second && a.id < b.id)
}

/// The place of the first submission from a second on among the first `n`.
pub open spec fn first_since(submissions: Seq<ProblemSubmissionModel>, from_second: i64, n: nat)
    -> Option<int>
    decreases n,
{
    if n == 0 {
        None
    } else {
        let before = first_since(submissions, from_second, (n - 1) as nat);
        let submission = submissions[n - 1];
        if submission.epoch_second < from_second {
            before
        } else {
            match before {
                Some(k) => if earlier(submission, submissions[k]) {
                    Some(n - 1)
                } else {
                    before
                },
                None => Some(n - 1),
            }
        }
    }
}

/// The place of the first submission that was made from a second on.
pub fn first_submission_since(submissions: &Vec<ProblemSubmission>, from_second: i64) -> (r: Option<
    usize,
>)
    ensures
        match r {
            Some(k) => k < submissions@.len() && first_since(
                submissions.deep_view(),
                from_second,
                submissions@.len(),
            ) == Some(k as int),
            None => first_since(submissions.deep_view(), from_second, submissions@.len()) is None,
        },
{
    let ghost all = submissions.deep_view();
    let mut best: Option<usize> = None;
    let mut i: usize = 0;
    while i < submissions.len()
        invariant
            i <= submissions@.len(),
            all == submissions.deep_view(),
            match best {
                Some(k) => k < i && first_since(all, from_second, i as nat) == Some(k as int),
                None => first_since(all, from_second, i as nat) is None,
            },
        decreases submissions@.len() - i,
    {
        assert(all[i as int] == submissions@[i as int].deep_view());
        let submission = &submissions[i];
        if submission.epoch_second >= from_second {
            let takes = match best {
                Some(k) => {
                    assert(all[k as int] == submissions@[k as int].deep_view());
                    submission.epoch_second < submissions[k].epoch_second || (
                    submission.epoch_second == submissions[k].epoch_second && submission.id
                        < submissions[k].id)
                },
                None => true,
            };
            if takes {
                best = Some(i);
            }
        }
        i += 1;
    }
    best
}

/// The first submission from a second on is one that was made from then on, no other such one was
/// made before it, and there is one whenever any was made from then on.
pub proof fn first_since_is_earliest(
    submissions: Seq<ProblemSubmissionModel>,
    from_second: i64,
    n: nat,
)
    requires
        n <= submissions.len(),
    ensures
        match first_since(submissions, from_second, n) {
            Some(k) => {
                &&& 0 <= k < n
                &&& submissions[k].epoch_second >= from_second
                &&& forall|i: int|
                    0 <= i < n && (#[trigger] submissions[i]).epoch_second >= from_second
                        ==> !earlier(submissions[i], submissions[k])
            },
            None => forall|i: int|
                0 <= i < n ==> (#[trigger] submissions[i]).epoch_second < from_second,
        },
    decreases n,
{
    if n > 0 {
        first_since_is_earliest(submissions, from_second, (n - 1) as nat);
    }
}

/// What is shown of a submission that was seen.
pub open spec fn detected_item(now: i64, submission: ProblemSubmissionModel)
    -> CommandOutputItemModel {
    let verdict = commands::shown_verdict(submission.verdict);
    CommandOutputItemModel {
        label: "Submissions"@,
        status: if verdict == "AC"@ {
            CommandOutputItemStatus::Passed
        } else {
            CommandOutputItemStatus::Warning
        },
        detail: Some(
            CommandOutputDetailModel {
                heading: "Detected AtCoder submission: "@ + verdict,
                diff: None,
                sections: seq![
                    CommandOutputDetailSectionModel {
                        title: "Submission"@,
                        body: seqs::pad_right(verdict, ' ', 8) + " "@ + ago(
                            wording::seconds_since(now, submission.epoch_second),
                        ) + "  #"@ + seqs::signed_decimal(submission.id as int) + "  "@
                            + submission.url,
                    },
                ],
            },
        ),
    }
}

/// What is shown at `now` of a submission that was seen.
pub fn detected_submission_output_item_at(now: i64, submission: &ProblemSubmission) -> (r:
    CommandOutputItem)
    ensures
        r.deep_view() == detected_item(now, submission.deep_view()),
{
    let verdict = verdict_text(submission.verdict.as_str());
    let status = if text::same(verdict.as_str(), "AC") {
        CommandOutputItemStatus::Passed
    } else {
        CommandOutputItemStatus::Warning
    };
    let when = format_relative_at(now, submission.epoch_second);
    let id = wording::signed_number(submission.id);
    let body = padded(verdict.as_str()).concat(" ").concat(when.as_str()).concat("  #").concat(
        id.as_str(),
    ).concat("  ").concat(submission.url.as_str());
    let mut sections: Vec<CommandOutputDetailSection> = Vec::new();
    sections.push(CommandOutputDetailSection { title: "Submission".to_owned(), body });
    let heading = "Detected AtCoder submission: ".to_owned().concat(verdict.as_str());
    assert(sections.deep_view() =~= detected_item(now, submission.deep_view()).detail->0.sections);
    CommandOutputItem {
        label: "Submissions".to_owned(),
        status,
        detail: Some(CommandOutputDetail::with_sections(heading, sections)),
    }
}

/// What is shown now of a submission that was seen.
pub fn detected_submission_output_item(submission: &ProblemSubmission) -> (r: CommandOutputItem)
    ensures
        exists|now: i64| r.deep_view() == #[trigger] detected_item(now, submission.deep_view()),
{
    let now: i64 = outside::current_second();
    detected_submission_output_item_at(now, submission)
}

/// A text without white space around it, unless it is blank.
pub open spec fn trimmed(value: Option<Seq<char>>) -> Option<Seq<char>> {
    match value {
        Some(value) => if seqs::is_blank(value) {
            None
        } else {
            Some(seqs::trim(value))
        },
        None => None,
    }
}

fn trimmed_text(value: &Option<String>) -> (r: Option<String>)
    ensures
        r.deep_view() == trimmed(value.deep_view()),
{
    match value {
        Some(value) => if text::is_blank_str(value.as_str()) {
            None
        } else {
            Some(text::trim_str(value.as_str()))
        },
        None => None,
    }
}

/// Who the user is: the one named by the environment, or else by the settings, or else the one who
/// last looked for a match.
pub fn configured_atcoder_user(
    environment: &Option<String>,
    setting: &Option<String>,
    saved: &Option<String>,
) -> (r: Option<String>)
    ensures
        r.deep_view() == match trimmed(environment.deep_view()) {
            Some(user) => Some(user),
            None => match trimmed(setting.deep_view()) {
                Some(user) => Some(user),
                None => trimmed(saved.deep_view()),
            },
        },
{
    match trimmed_text(environment) {
        Some(user) => Some(user),
        None => match trimmed_text(setting) {
            Some(user) => Some(user),
            None => trimmed_text(saved),
        },
    }
}

/// Whether a problem in the stored list lacks what the tree needs.
pub fn problem_needs_list_refresh(problem: &Problem) -> (r: bool)
    ensures
        r == lacks_place(problem.deep_view()),
{
    text::is_blank_str(problem.contest_group.as_str()) || text::is_blank_str(
        problem.contest_segment.as_str(),
    ) || text::is_blank_str(problem.contest_title.as_str())
}

/// Whether a problem in the stored list lacks what the tree needs.
pub open spec fn lacks_place(problem: ProblemModel) -> bool {
    seqs::is_blank(problem.contest_group) || seqs::is_blank(problem.contest_segment)
        || seqs::is_blank(problem.contest_title)
}

/// A solution that is ready to be submitted, and where.
pub struct PracticeSubmitReady {
    pub source_code: String,
    pub source_path: String,
    pub submit_url: String,
}

/// What a `PracticeSubmitReady` holds.
#[verifier::ext_equal]
pub struct PracticeSubmitReadyModel {
    pub source_code: Seq<char>,
    pub source_path: Seq<char>,
    pub submit_url: Seq<char>,
}

impl DeepView for PracticeSubmitReady {
    type V = PracticeSubmitReadyModel;

    open spec fn deep_view(&self) -> PracticeSubmitReadyModel {
        PracticeSubmitReadyModel {
            source_code: self.source_code@,
            source_path: self.source_path@,
            submit_url: self.submit_url@,
        }
    }
}

/// What came of a command.
pub struct PracticeCommandOutput {
    pub success: bool,
    pub items: Vec<CommandOutputItem>,
    pub case_results: Vec<(usize, CaseResult)>,
    pub submit_ready: Option<PracticeSubmitReady>,
}

/// What a `PracticeCommandOutput` holds.
#[verifier::ext_equal]
pub struct PracticeCommandOutputModel {
    pub success: bool,
    pub items: Seq<CommandOutputItemModel>,
    pub case_results: Seq<(usize, CaseResultModel)>,
    pub submit_ready: Option<PracticeSubmitReadyModel>,
}

impl DeepView for PracticeCommandOutput {
    type V = PracticeCommandOutputModel;

    open spec fn deep_view(&self) -> PracticeCommandOutputModel {
        PracticeCommandOutputModel {
            success: self.success,
            items: self.items.deep_view(),
            case_results: self.case_results.deep_view(),
            submit_ready: self.submit_ready.deep_view(),
        }
    }
}

/// The heading of a build; `executable` is the path of its program.
pub open spec fn build_heading(
    build: ProcessOutput,
    executable: Seq<char>,
) -> Seq<char> {
    build.label@ + " finished with exit "@ + commands::exit_code(build.status) + "\n"@ + executable
        + " "@ + seqs::join(build.args.deep_view(), " "@)
}

/// The outcome of a test: of the build, and of the samples, if the build succeeded. That there are
/// no samples is worth a warning.
pub open spec fn test_outcome(
    build: ProcessOutput,
    cases: Seq<(usize, SampleResultModel)>,
    executable: Seq<char>,
) -> PracticeCommandOutputModel {
    let summary = output::summary_of(build, cases, build_heading(build, executable));
    if !build.status.success {
        PracticeCommandOutputModel {
            success: false,
            items: seq![summary.build_item],
            case_results: seq![],
            submit_ready: None,
        }
    } else {
        PracticeCommandOutputModel {
            success: summary.passed_cases == summary.total_cases,
            items: if summary.total_cases == 0 {
                seq![
                    summary.build_item,
                    output::single_item(
                        "Samples"@,
                        CommandOutputItemStatus::Warning,
                        "No sample cases are available."@,
                    ),
                ]
            } else {
                seq![summary.build_item]
            },
            case_results: summary.case_results,
            submit_ready: None,
        }
    }
}

/// The outcome of a test; `executable` is the path of the program that built the solution.
pub fn render_practice_test_report(report: SampleTestReport, executable: &str) -> (r:
    PracticeCommandOutput)
    ensures
        r.deep_view() == test_outcome(report.build, report.cases.deep_view(), executable@),
{
    let code = match report.build.status.code {
        Some(code) => wording::signed_number(code as i64),
        None => "signal".to_owned(),
    };
    let args = text::join_strings(&report.build.args, " ");
    assert(seqs::strs(report.build.args@) =~= report.build.args.deep_view());
    let heading = report.build.label.to_owned().concat(" finished with exit ").concat(
        code.as_str(),
    ).concat("\n").concat(executable).concat(" ").concat(args.as_str());
    let ghost expected = test_outcome(report.build, report.cases.deep_view(), executable@);
    let summary = sample_test_summary(report, heading);
    let mut items: Vec<CommandOutputItem> = Vec::new();
    items.push(summary.build_item);
    if !summary.build_succeeded {
        let r = PracticeCommandOutput {
            success: false,
            items,
            case_results: Vec::new(),
            submit_ready: None,
        };
        assert(r.deep_view().items =~= expected.items);
        assert(r.deep_view().case_results =~= expected.case_results);
        return r;
    }
    if summary.total_cases == 0 {
        items.push(
            plain_item(
                "Samples",
                CommandOutputItemStatus::Warning,
                "No sample cases are available.".to_owned(),
            ),
        );
    }
    let r = PracticeCommandOutput {
        success: summary.passed_cases == summary.total_cases,
        items,
        case_results: summary.case_results,
        submit_ready: None,
    };
    assert(r.deep_view().items =~= expected.items);
    r
}

/// The outcome of submitting a solution whose test came out as `test`: it is ready to be submitted
/// whatever came of its test.
pub fn run_practice_submit(test: PracticeCommandOutput, submission: PracticeSubmitReady) -> (r:
    PracticeCommandOutput)
    ensures
        r.deep_view() == (PracticeCommandOutputModel {
            submit_ready: Some(submission.deep_view()),
            ..test.deep_view()
        }),
{
    PracticeCommandOutput {
        success: test.success,
        items: test.items,
        case_results: test.case_results,
        submit_ready: Some(submission),
    }
}

/// How long ago something was is told in the largest unit that it fills, rounded down: seconds up
/// to a minute, minutes up to an hour, hours up to a day, days up to a week, weeks up to thirty days,
/// months of thirty days up to a year, and years of 365 days.
pub proof fn time_is_told_in_largest_unit(delta: nat, n: nat)
    ensures
        delta < 60 && n == delta ==> ago(delta) == seqs::decimal(n) + "s ago"@,
        60 <= delta < 60 * 60 && n * 60 <= delta < (n + 1) * 60 ==> ago(delta) == seqs::decimal(n)
            + "m ago"@,
        60 * 60 <= delta < 24 * 60 * 60 && n * 3600 <= delta < (n + 1) * 3600 ==> ago(delta)
            == seqs::decimal(n) + "h ago"@,
        24 * 60 * 60 <= delta < 7 * 24 * 60 * 60 && n * 86400 <= delta < (n + 1) * 86400 ==> ago(
            delta,
        ) == seqs::decimal(n) + "d ago"@,
        7 * 24 * 60 * 60 <= delta < 30 * 24 * 60 * 60 && n * 604800 <= delta < (n + 1) * 604800
            ==> ago(delta) == seqs::decimal(n) + "w ago"@,
        30 * 24 * 60 * 60 <= delta < 365 * 24 * 60 * 60 && n * 2592000 <= delta < (n + 1) * 2592000
            ==> ago(delta) == seqs::decimal(n) + "mo ago"@,
        365 * 24 * 60 * 60 <= delta && n * 31536000 <= delta < (n + 1) * 31536000 ==> ago(delta)
            == seqs::decimal(n) + "y ago"@,
{
}

/// The first submission from a second on is the one with the smallest second, and of those with the
/// same second the one with the smallest id.
pub proof fn first_submission_is_smallest(
    submissions: Seq<ProblemSubmissionModel>,
    from_second: i64,
    k: int,
    i: int,
)
    requires
        first_since(submissions, from_second, submissions.len()) == Some(k),
        0 <= i < submissions.len(),
        submissions[i].epoch_second >= from_second,
    ensures
        0 <= k < submissions.len(),
        submissions[k].epoch_second >= from_second,
        submissions[k].epoch_second <= submissions[i].epoch_second,
        submissions[k].epoch_second == submissions[i].epoch_second ==> submissions[k].id
            <= submissions[i].id,
{
    first_since_is_earliest(submissions, from_second, submissions.len());
}

/// Each submission has a row of its own, in their order, with its verdict, how long ago it was made,
/// its number and its address.
pub proof fn rows_tell_of_submissions(
    now: i64,
    submission: ProblemSubmissionModel,
    others: Seq<ProblemSubmissionModel>,
)
    ensures
        submission_rows(now, seq![]).len() == 0,
        others.len() > 0 ==> submission_rows(now, seq![submission] + others) == submission_rows(
            now,
            seq![submission],
        ) + "\n"@ + submission_rows(now, others),
        ({
            let row = submission_rows(now, seq![submission]);
            &&& row == seqs::pad_right(
                if seqs::is_blank(submission.verdict) {
                    "Unknown"@
                } else {
                    seqs::trim(submission.verdict)
                },
                ' ',
                8,
            ) + " "@ + seqs::pad_right(
                ago(
                    if now > submission.epoch_second {
                        (now - submission.epoch_second) as nat
                    } else {
                        0
                    },
                ),
                ' ',
                8,
            ) + " #"@ + seqs::signed_decimal(submission.id as int) + "  "@ + submission.url
            &&& seqs::ends_with(row, submission.url)
            &&& seqs::contains(row, " #"@ + seqs::signed_decimal(submission.id as int) + "  "@)
        }),
{
    let all = seq![submission] + others;
    let rows = Seq::new(all.len(), |i: int| submission_row(now, all[i]));
    let rest = Seq::new(others.len(), |i: int| submission_row(now, others[i]));
    assert(rows =~= seq![submission_row(now, submission)] + rest);
    seqs::joining_separates(submission_row(now, submission), rest, "\n"@);
    let one = Seq::new(seq![submission].len(), |i: int| submission_row(now, seq![submission][i]));
    assert(one =~= seq![submission_row(now, submission)]);
    let row = submission_row(now, submission);
    let lead = seqs::pad_right(commands::shown_verdict(submission.verdict), ' ', 8) + " "@
        + seqs::pad_right(ago(wording::seconds_since(now, submission.epoch_second)), ' ', 8);
    let number = " #"@ + seqs::signed_decimal(submission.id as int) + "  "@;
    assert(row =~= lead + number + submission.url);
    seqs::found_text_stands_inside(row, number, lead, submission.url);
    seqs::found_text_stands_inside(row, submission.url, lead + number, seq![]);
}

/// Submissions are shown as passed exactly if one of them was accepted; that there are none is a
/// warning, and an error a failure.
pub proof fn accepted_submission_passes(
    now: i64,
    user: Seq<char>,
    problem: Seq<char>,
    submissions: Seq<ProblemSubmissionModel>,
    error: Seq<char>,
)
    ensures
        ({
            let item = submissions_item(now, user, problem, Ok(submissions));
            &&& item.label == "Submissions"@
            &&& item.status == CommandOutputItemStatus::Passed <==> exists|i: int|
                0 <= i < submissions.len() && seqs::trim((#[trigger] submissions[i]).verdict)
                    == "AC"@
            &&& item.status != CommandOutputItemStatus::Passed ==> item.status
                == CommandOutputItemStatus::Warning
            &&& item.detail is Some
            &&& submissions.len() == 0 ==> item.detail->0.heading
                == "No recent submissions found for "@ + user + " on "@ + problem + "."@
                && item.detail->0.sections.len() == 0
            &&& submissions.len() == 1 ==> item.detail->0.heading == "Fetched "@ + seqs::decimal(1)
                + " recent submission"@ + " for "@ + user + " on "@ + problem + "."@
            &&& submissions.len() > 1 ==> item.detail->0.heading == "Fetched "@ + seqs::decimal(
                submissions.len(),
            ) + " recent submission"@ + "s"@ + " for "@ + user + " on "@ + problem + "."@
            &&& submissions.len() > 0 ==> item.detail->0.sections.len() == 1
                && item.detail->0.sections[0].title == "Recent submissions"@
                && item.detail->0.sections[0].body == submission_rows(now, submissions)
        }),
        ({
            let item = submissions_item(now, user, problem, Err(error));
            &&& item.label == "Submissions"@
            &&& item.status == CommandOutputItemStatus::Failed
            &&& item.detail is Some
            &&& item.detail->0.heading == "Could not fetch submissions:\n"@ + error
        }),
{
    if submissions.len() == 1 {
        let user_part = " for "@ + user + " on "@ + problem + "."@;
        assert("Fetched "@ + seqs::decimal(1) + " recent submission"@ + Seq::<char>::empty()
            =~= "Fetched "@ + seqs::decimal(1) + " recent submission"@);
    }
    assert(has_accepted(submissions) ==> submissions.len() > 0);
}

/// A submission that was seen is shown with its verdict, and as passed exactly if it was accepted.
pub proof fn seen_submission_shows_verdict(now: i64, submission: ProblemSubmissionModel)
    ensures
        ({
            let item = detected_item(now, submission);
            let verdict = if seqs::is_blank(submission.verdict) {
                "Unknown"@
            } else {
                seqs::trim(submission.verdict)
            };
            &&& item.label == "Submissions"@
            &&& item.status == CommandOutputItemStatus::Passed <==> verdict == "AC"@
            &&& item.status == CommandOutputItemStatus::Warning <==> verdict != "AC"@
            &&& item.detail is Some
            &&& item.detail->0.heading == "Detected AtCoder submission: "@ + verdict
            &&& item.detail->0.sections.len() == 1
            &&& item.detail->0.sections[0].title == "Submission"@
            &&& item.detail->0.sections[0].body == seqs::pad_right(verdict, ' ', 8) + " "@ + ago(
                if now > submission.epoch_second {
                    (now - submission.epoch_second) as nat
                } else {
                    0
                },
            ) + "  #"@ + seqs::signed_decimal(submission.id as int) + "  "@ + submission.url
        }),
{
}

/// A name without white space around it is the same name, and a blank one is none.
pub proof fn blank_name_is_none(name: Seq<char>)
    ensures
        trimmed(None) is None,
        seqs::is_blank(name) ==> trimmed(Some(name)) is None,
        !seqs::is_blank(name) ==> trimmed(Some(name)) == Some(seqs::trim(name)),
{
}

/// A problem has its place in the tree exactly if its group, its segment and the title of its
/// contest are all known.
pub proof fn place_needs_group_segment_and_title(problem: ProblemModel)
    ensures
        lacks_place(problem) <==> !(!seqs::is_blank(problem.contest_group) && !seqs::is_blank(
            problem.contest_segment,
        ) && !seqs::is_blank(problem.contest_title)),
{
}

/// A test succeeds exactly if the solution was built and accepted on every sample. It shows the
/// build, a warning if there are no samples, and what became of each sample, unless the build
/// failed; it does not make the solution ready to be submitted.
pub proof fn test_succeeds_on_all_samples(
    build: ProcessOutput,
    cases: Seq<(usize, SampleResultModel)>,
    executable: Seq<char>,
)
    requires
        cases.len() <= usize::MAX,
    ensures
        ({
            let outcome = test_outcome(build, cases, executable);
            let heading = build.label@ + " finished with exit "@ + (match build.status.code {
                Some(code) => seqs::signed_decimal(code as int),
                None => "signal"@,
            }) + "\n"@ + executable + " "@ + seqs::join(build.args.deep_view(), " "@);
            &&& outcome.success <==> build.status.success && output::accepted_count(cases)
                == cases.len()
            &&& outcome.submit_ready is None
            &&& outcome.items.len() == if build.status.success && cases.len() == 0 {
                2int
            } else {
                1int
            }
            &&& outcome.items[0] == output::summary_of(build, cases, heading).build_item
            &&& build.status.success && cases.len() == 0 ==> {
                &&& outcome.items[1].label == "Samples"@
                &&& outcome.items[1].status == CommandOutputItemStatus::Warning
                &&& outcome.items[1].detail is Some
                &&& outcome.items[1].detail->0.heading == "No sample cases are available."@
            }
            &&& !build.status.success ==> outcome.case_results.len() == 0
            &&& build.status.success ==> outcome.case_results == output::cases_of(cases)
        }),
{
    output::accepted_results_are_counted(cases, seq![], cases[0]);
}
/// The models hold what the values hold, each part under its own name.
pub proof fn models_hold_their_parts(
    practice_submit_ready: PracticeSubmitReady,
    practice_command_output: PracticeCommandOutput,
)
    ensures
        practice_submit_ready.deep_view() == (PracticeSubmitReadyModel {
            source_code: practice_submit_ready.source_code@,
            source_path: practice_submit_ready.source_path@,
            submit_url: practice_submit_ready.submit_url@,
        }),
        practice_command_output.deep_view() == (PracticeCommandOutputModel {
            success: practice_command_output.success,
            items: practice_command_output.items.deep_view(),
            case_results: practice_command_output.case_results.deep_view(),
            submit_ready: practice_command_output.submit_ready.deep_view(),
        }),
{
}
/// What was fetched is passed on as it is.
pub proof fn fetched_submissions_are_passed_on(submissions: Vec<ProblemSubmission>, error: String)
    ensures
        fetched_model(Ok(submissions)) == Ok::<Seq<ProblemSubmissionModel>, Seq<char>>(
            submissions.deep_view(),
        ),
        fetched_model(Err(error)) == Err::<Seq<ProblemSubmissionModel>, Seq<char>>(error@),
{
}
/// The user is the one whom the environment names; if it names none, the one of the settings, and if
/// they name none, the one who last looked for a match. Names are taken without the white space
/// around them, and blank ones name nobody.
pub proof fn environment_names_user_first(
    environment: Option<String>,
    setting: Option<String>,
    saved: Option<String>,
    user: Option<String>,
)
    requires
        call_ensures(configured_atcoder_user, (&environment, &setting, &saved), user),
    ensures
        ({
            let named = environment is Some && !seqs::is_blank(environment->0@);
            let set = setting is Some && !seqs::is_blank(setting->0@);
            let kept = saved is Some && !seqs::is_blank(saved->0@);
            &&& user is Some <==> named || set || kept
            &&& named ==> user->0@ == seqs::trim(environment->0@)
            &&& !named && set ==> user->0@ == seqs::trim(setting->0@)
            &&& !named && !set && kept ==> user->0@ == seqs::trim(saved->0@)
        }),
{
}
/// A solution is ready to be submitted whatever came of its test, which is shown as it came out.
pub proof fn solution_is_ready_after_any_test(
    test: PracticeCommandOutput,
    submission: PracticeSubmitReady,
    outcome: PracticeCommandOutput,
)
    requires
        call_ensures(run_practice_submit, (test, submission), outcome),
    ensures
        outcome.success == test.success,
        outcome.items.deep_view() == test.items.deep_view(),
        outcome.case_results.deep_view() == test.case_results.deep_view(),
        outcome.submit_ready is Some,
        outcome.submit_ready->0.source_code@ == submission.source_code@,
        outcome.submit_ready->0.source_path@ == submission.source_path@,
        outcome.submit_ready->0.submit_url@ == submission.submit_url@,
{
    assert(outcome.submit_ready.deep_view()->0 == outcome.submit_ready->0.deep_view());
}
} // verus!
