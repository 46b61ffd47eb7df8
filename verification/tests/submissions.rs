use rcontest::server::atcoder;
use rcontest::server::model::AtCoderSubmission;
use rcontest::submissions::{
    check_problem_submissions_request, check_source_request, check_submissions_request,
    default_atcoder_revel_session_path, default_atcoder_revel_session_paths,
    load_atcoder_revel_session,
    parse_atcoder_submission_source_page, parse_atcoder_submissions_page, session_cookie,
    source_from_selection, submission_from_row, submission_id, submissions_page_url, PageError,
    ProblemSubmission, RequestError, SessionFile, SubmissionPages, DEFAULT_MAX_SUBMISSION_PAGES,
};

#[test]
fn rcontest_parses_atcoder_submissions_page() {
    let html = r#"
<table class="table table-bordered">
  <tbody>
    <tr>
      <td><time class="fixtime fixtime-second">2026-06-26 01:23:45+0900</time></td>
      <td>linyisu1024</td>
      <td><a href="/contests/abc073/tasks/abc073_c">C - Write and Erase</a></td>
      <td>Rust</td>
      <td>300</td>
      <td>1024 Byte</td>
      <td><span class="label label-success">AC</span></td>
      <td>12 ms</td>
      <td>2048 KB</td>
      <td><a class="submission-details-link" href="/contests/abc073/submissions/123456789">Detail</a></td>
    </tr>
    <tr>
      <td><time class="fixtime fixtime-second">2026-06-26 01:24:45+0900</time></td>
      <td>linyisu1024</td>
      <td><a href="/contests/abc073/tasks/abc073_b">B - Theater</a></td>
      <td>Rust</td>
      <td>0</td>
      <td>512 Byte</td>
      <td><span class="label label-warning">WA</span></td>
      <td>12 ms</td>
      <td>2048 KB</td>
      <td><a class="submission-details-link" href="/contests/abc073/submissions/123456790">Detail</a></td>
    </tr>
  </tbody>
</table>
"#;
    let submissions = parse_atcoder_submissions_page(html, "abc073", "abc073_c").unwrap();

    assert_eq!(submissions.len(), 1);
    assert_eq!(submissions[0].id, 123456789);
    assert_eq!(submissions[0].verdict, "AC");
    assert_eq!(submissions[0].epoch_second, 1782404625);
    assert_eq!(
        submissions[0].url,
        "https://atcoder.jp/contests/abc073/submissions/123456789"
    );
}

#[test]
fn rduel_server_parses_atcoder_submissions_page() {
    let html = r#"
            <table class="table table-bordered">
                <tbody>
                    <tr>
                        <td><time>2026-06-22 01:20:03+0900</time></td>
                        <td>user</td>
                        <td>task</td>
                        <td><a>Rust</a></td>
                        <td>200</td>
                        <td>1024 Byte</td>
                        <td><span>AC</span></td>
                        <td>12 ms</td>
                        <td><a class="submission-details-link" href="/contests/abc001/submissions/12345">Detail</a></td>
                    </tr>
                </tbody>
            </table>
        "#;

    let submissions = atcoder::parse_atcoder_submissions_page(html, "abc001_a").unwrap();

    assert_eq!(submissions.len(), 1);
    assert_eq!(submissions[0].id, 12345);
    assert_eq!(submissions[0].problem_id, "abc001_a");
    assert_eq!(submissions[0].result, "AC");
    assert_eq!(submissions[0].epoch_second, 1782058803);
}

fn submission(id: i64) -> ProblemSubmission {
    ProblemSubmission {
        id,
        epoch_second: 100 + id,
        verdict: "WA".to_string(),
        url: String::new(),
    }
}

fn ids(pages: &SubmissionPages) -> Vec<i64> {
    pages.submissions.iter().map(|found| found.id).collect()
}

fn cell(href: Option<&str>, text: &str) -> Option<(Option<String>, String)> {
    Some((href.map(str::to_string), text.to_string()))
}

#[test]
fn id_is_the_last_part_of_the_path() {
    assert_eq!(submission_id("/contests/abc073/submissions/42"), Some(42));
    assert_eq!(submission_id("-7"), Some(-7));
    assert_eq!(submission_id("/contests/abc073/submissions/"), None);
    assert_eq!(submission_id("/submissions/9223372036854775808"), None);
}

#[test]
fn row_counts_for_its_own_task_only() {
    let row = vec![
        cell(Some("/contests/abc073/tasks/abc073_c?lang=en"), ""),
        cell(Some("/contests/abc073/submissions/5"), "Detail"),
        cell(None, "2026-06-26 01:23:45+0900"),
        cell(None, " AC "),
    ];
    let found = submission_from_row(&row, Some(100), "abc073", "abc073_c").unwrap();
    assert_eq!(found.id, 5);
    assert_eq!(found.epoch_second, 100);
    assert_eq!(found.verdict, "AC");
    assert_eq!(found.url, "https://atcoder.jp/contests/abc073/submissions/5");
    assert!(submission_from_row(&row, Some(100), "abc073", "abc073_b").is_none());
    assert!(submission_from_row(&row, None, "abc073", "abc073_c").is_none());
}

#[test]
fn times_are_read_with_their_offset() {
    let page = |time: &str| {
        format!(
            "<table class=\"table-bordered\"><tbody><tr><td><time>{time}</time></td><td></td><td><a href=\"/contests/c/tasks/t\"></a></td><td></td><td></td><td></td><td>AC</td><td><a class=\"submission-details-link\" href=\"/1\"></a></td></tr></tbody></table>"
        )
    };
    let second = |time: &str| {
        let found = parse_atcoder_submissions_page(&page(time), "c", "t").unwrap();
        found.iter().map(|found| found.epoch_second).collect::<Vec<i64>>()
    };
    assert_eq!(second("1970-01-01 09:00:00+0900"), vec![0]);
    assert_eq!(second(" 1970-01-01 00:00:01+0000 "), vec![1]);
    assert_eq!(second("yesterday"), Vec::<i64>::new());
}

#[test]
fn source_of_a_submission_is_its_text() {
    assert_eq!(
        parse_atcoder_submission_source_page("<pre id=\"submission-code\">fn main() {}</pre>"),
        Ok("fn main() {}".to_string())
    );
    assert_eq!(
        parse_atcoder_submission_source_page("<pre></pre>"),
        Err(PageError::SourceNotFound)
    );
    assert_eq!(
        source_from_selection(Some(Some(String::new()))),
        Err(PageError::SourceNotFound)
    );
    assert_eq!(source_from_selection(None), Err(PageError::Selector));
}

#[test]
fn pages_are_not_longer_than_a_parser_can_hold() {
    let html = " ".repeat(0x4000_0000);
    assert_eq!(parse_atcoder_submission_source_page(&html), Err(PageError::TooLong));
    let found = parse_atcoder_submissions_page(&html, "abc001", "abc001_a");
    assert!(matches!(found, Err(PageError::TooLong)));
    let found = atcoder::parse_atcoder_submissions_page(&html, "abc001_a");
    assert!(matches!(found, Err(PageError::TooLong)));
}

#[test]
fn requests_name_what_is_missing() {
    assert_eq!(check_submissions_request("u", "c", "p"), Ok(()));
    assert_eq!(check_submissions_request(" ", "", ""), Err(RequestError::NoUser));
    assert_eq!(check_submissions_request("u", " ", ""), Err(RequestError::NoContest));
    assert_eq!(check_submissions_request("u", "c", " "), Err(RequestError::NoProblem));
    assert_eq!(check_problem_submissions_request("", "c"), Err(RequestError::NoUser));
    assert_eq!(check_problem_submissions_request(" ", "c"), Ok(()));
    assert_eq!(check_problem_submissions_request("u", " "), Err(RequestError::NoContest));
    assert_eq!(check_source_request("c", &None), Err(RequestError::NoSession));
    assert_eq!(
        check_source_request("", &Some("s".to_string())),
        Err(RequestError::NoContest)
    );
    assert_eq!(check_source_request("c", &Some("s".to_string())), Ok(()));
    assert_eq!(
        atcoder::check_player_request(&None, "abc073_c"),
        Err(RequestError::NoSession)
    );
    assert_eq!(
        atcoder::check_player_request(&Some("s".to_string()), "abc073"),
        Err(RequestError::NoContest)
    );
}

#[test]
fn page_address_names_user_task_and_page() {
    assert_eq!(
        submissions_page_url("abc073", "me", "abc073_c", 2),
        "https://atcoder.jp/contests/abc073/submissions?f.User=me&f.Task=abc073_c&page=2"
    );
    assert_eq!(session_cookie(" s\n"), "REVEL_SESSION=s");
}

#[test]
fn session_comes_from_the_environment_first() {
    let content = |text: &str| SessionFile::Content(text.to_string());
    assert_eq!(
        load_atcoder_revel_session(Some(" a ".to_string()), &vec![content("b")]),
        Ok(Some("a".to_string()))
    );
    assert_eq!(
        load_atcoder_revel_session(
            Some(" ".to_string()),
            &vec![SessionFile::Missing, content(" \n"), content("b\n")]
        ),
        Ok(Some("b".to_string()))
    );
    assert_eq!(
        load_atcoder_revel_session(None, &vec![SessionFile::Unreadable, content("b")]),
        Err(())
    );
    assert_eq!(load_atcoder_revel_session(None, &vec![]), Ok(None));
    assert_eq!(
        default_atcoder_revel_session_paths(Some("/home/me".to_string())),
        vec![
            vec!["crates", "rduel_server", "atcoder_revel_session"],
            vec!["/home/me", ".rduel-server", "atcoder_revel_session"],
        ]
    );
    assert_eq!(default_atcoder_revel_session_paths(None).len(), 1);
    assert_eq!(
        default_atcoder_revel_session_path(),
        vec!["crates", "rduel_server", "atcoder_revel_session"]
    );
}

#[test]
fn reading_stops_at_the_limit() {
    let mut pages = SubmissionPages::new(0, Some(3));
    assert_eq!(pages.max_pages, 1);
    pages.read(vec![submission(1), submission(2)]);
    assert!(pages.done);
    assert_eq!(ids(&pages), vec![1, 2]);

    let mut pages = SubmissionPages::new(DEFAULT_MAX_SUBMISSION_PAGES, Some(3));
    pages.read(vec![submission(1), submission(2)]);
    assert!(!pages.done);
    assert_eq!(pages.page, 2);
    pages.read(vec![submission(3), submission(4)]);
    assert!(pages.done);
    assert_eq!(ids(&pages), vec![1, 2, 3]);

    let mut pages = SubmissionPages::new(5, None);
    pages.read(vec![submission(1)]);
    pages.read(vec![]);
    assert!(pages.done);
    assert_eq!(ids(&pages), vec![1]);
}

#[test]
fn reading_for_a_match_stops_at_older_submissions() {
    let found = |epoch_second: i64| AtCoderSubmission {
        id: epoch_second,
        epoch_second,
        problem_id: "abc001_a".to_string(),
        result: "WA".to_string(),
        source_code: None,
    };
    let mut pages = atcoder::PlayerPages::new();
    pages.read(vec![found(120), found(90)], 100);
    assert!(!pages.done);
    assert_eq!(pages.page, 2);
    pages.read(vec![found(80)], 100);
    assert!(pages.done);
    assert_eq!(pages.submissions.len(), 3);
}

#[test]
fn reading_for_a_match_keeps_to_the_page_cap() {
    let mut pages = atcoder::PlayerPages::new();
    let mut read = 0;
    while !pages.done {
        read += 1;
        assert_eq!(pages.page, read);
        let newer = AtCoderSubmission {
            id: i64::from(read),
            epoch_second: 200,
            problem_id: "abc001_a".to_string(),
            result: "WA".to_string(),
            source_code: None,
        };
        pages.read(vec![newer], 100);
    }
    assert_eq!(read, 5);
    assert_eq!(pages.submissions.len(), 5);
}
