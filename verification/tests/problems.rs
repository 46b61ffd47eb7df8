use rcontest::problems::{
    atcoder_submit_url, contest_group_and_segment, contest_id_from_problem_id, english_problem_url,
    fetch_problem_list, preferred_problem_title, Problem, RawContest, RawProblem,
};

#[test]
fn contest_group_prefers_prefix_and_segment() {
    assert_eq!(
        contest_group_and_segment("abc073", "AtCoder Beginner Contest 073"),
        ("abc".to_string(), "073".to_string())
    );
    assert_eq!(
        contest_group_and_segment("joi2023yo1a", "Japanese Olympiad in Informatics"),
        ("joi".to_string(), "2023yo1a".to_string())
    );
}

#[test]
fn english_problem_url_appends_lang() {
    assert_eq!(
        english_problem_url("https://atcoder.jp/contests/abc073/tasks/abc073_c"),
        "https://atcoder.jp/contests/abc073/tasks/abc073_c?lang=en"
    );
    assert_eq!(
        english_problem_url("https://atcoder.jp/contests/abc073/tasks/abc073_c?foo=1"),
        "https://atcoder.jp/contests/abc073/tasks/abc073_c?foo=1&lang=en"
    );
}

#[test]
fn atcoder_submit_url_preselects_task() {
    assert_eq!(
        atcoder_submit_url("https://atcoder.jp/contests/abc073/tasks/abc073_c"),
        Some("https://atcoder.jp/contests/abc073/submit?taskScreenName=abc073_c".to_string())
    );
    assert_eq!(atcoder_submit_url("not a url"), None);
    assert_eq!(atcoder_submit_url("https://example.com"), None);
    assert_eq!(
        atcoder_submit_url("https://atcoder.jp/contests/abc073"),
        None
    );
}

#[test]
fn problem_list_entry_points_to_atcoder_statement_url() {
    let raw = RawProblem {
        id: "abc073_c".to_string(),
        contest_id: "abc073".to_string(),
        problem_index: "C".to_string(),
        title: "Write and Erase".to_string(),
        name: String::new(),
    };
    let title = preferred_problem_title(&raw);
    let problem_id = raw.id.trim().to_string();
    let problem = Problem {
        id: problem_id.clone(),
        contest_id: raw.contest_id.trim().to_string(),
        contest_title: "AtCoder Beginner Contest 073".to_string(),
        contest_group: "abc".to_string(),
        contest_segment: "073".to_string(),
        task_index: raw.problem_index.trim().to_string(),
        title,
        url: format!(
            "https://atcoder.jp/contests/{}/tasks/{}",
            raw.contest_id.trim(),
            problem_id
        ),
    };

    assert_eq!(problem.id, "abc073_c");
    assert_eq!(
        problem.url,
        "https://atcoder.jp/contests/abc073/tasks/abc073_c"
    );
}

#[test]
fn atcoder_submit_url_preselects_language_and_task() {
    assert_eq!(
        atcoder_submit_url("https://atcoder.jp/contests/abc073/tasks/abc073_c"),
        Some("https://atcoder.jp/contests/abc073/submit?taskScreenName=abc073_c".to_string())
    );
}

#[test]
fn atcoder_submit_url_handles_invalid_urls() {
    assert_eq!(atcoder_submit_url("not a url"), None);
    assert_eq!(atcoder_submit_url("https://example.com"), None);
    assert_eq!(
        atcoder_submit_url("https://atcoder.jp/contests/abc073"),
        None
    );
}

fn raw_problem(id: &str, contest_id: &str, problem_index: &str, title: &str) -> RawProblem {
    RawProblem {
        id: id.to_string(),
        contest_id: contest_id.to_string(),
        problem_index: problem_index.to_string(),
        title: title.to_string(),
        name: String::new(),
    }
}

fn raw_contest(id: &str, title: &str) -> RawContest {
    RawContest {
        id: id.to_string(),
        title: title.to_string(),
    }
}

#[test]
fn contests_without_a_number_are_grouped_by_their_title() {
    assert_eq!(
        contest_group_and_segment("abc", "AtCoder Beginner Contest"),
        ("atcoder".to_string(), "abc".to_string())
    );
    assert_eq!(
        contest_group_and_segment("Tessoku-Book", "Tessoku"),
        ("tessoku".to_string(), "book".to_string())
    );
    assert_eq!(
        contest_group_and_segment("2024", "  "),
        ("2024".to_string(), "2024".to_string())
    );
}

#[test]
fn contest_is_what_comes_before_the_underscore() {
    assert_eq!(
        contest_id_from_problem_id("abc073_c_x"),
        Some("abc073".to_string())
    );
    assert_eq!(contest_id_from_problem_id("abc073"), None);
}

#[test]
fn title_falls_back_to_name_and_id() {
    let mut raw = raw_problem("abc073_c", "abc073", "C", "  ");
    assert_eq!(preferred_problem_title(&raw), "abc073_c");
    raw.name = " Write and Erase ".to_string();
    assert_eq!(preferred_problem_title(&raw), "Write and Erase");
    raw.title = "C. Write and Erase".to_string();
    assert_eq!(preferred_problem_title(&raw), "C. Write and Erase");
}

#[test]
fn problem_list_skips_what_is_not_identified() {
    let problems = fetch_problem_list(
        &vec![
            raw_problem(" abc073_c ", "abc073", "C", "Write and Erase"),
            raw_problem("abc073_d", "abc073", "  ", "joisino's travel"),
            raw_problem("arc001_1", "arc001", "A", ""),
        ],
        &vec![
            raw_contest("abc073", "an older title"),
            raw_contest("abc073", "AtCoder Beginner Contest 073"),
        ],
    );
    assert_eq!(problems.len(), 2);
    assert_eq!(problems[0].id, "abc073_c");
    assert_eq!(problems[0].contest_title, "AtCoder Beginner Contest 073");
    assert_eq!(problems[0].contest_group, "abc");
    assert_eq!(problems[0].contest_segment, "073");
    assert_eq!(
        problems[0].url,
        "https://atcoder.jp/contests/abc073/tasks/abc073_c"
    );
    assert_eq!(problems[1].title, "arc001_1");
    assert_eq!(problems[1].contest_title, "arc001");
}

#[test]
fn listed_problem_can_be_submitted() {
    let problems = fetch_problem_list(
        &vec![raw_problem("abc073_c", "abc073", "C", "Write and Erase")],
        &vec![],
    );
    assert_eq!(
        atcoder_submit_url(&problems[0].url),
        Some("https://atcoder.jp/contests/abc073/submit?taskScreenName=abc073_c".to_string())
    );
    assert_eq!(
        atcoder_submit_url(&english_problem_url(&problems[0].url)),
        Some("https://atcoder.jp/contests/abc073/submit?taskScreenName=abc073_c".to_string())
    );
}
