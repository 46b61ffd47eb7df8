use rcontest::conversion::{
    convert_server_html, convert_statement_html_to_markdown, finish_server_markdown,
    finish_statement_markdown, parse_problem_page, prepare_server_html, prepare_statement_html,
    StatementError,
};
use rcontest::markdown::{
    normalize_statement_markdown, repair_adjacent_inline_code_spans, repair_collapsed_line_breaks,
    repair_empty_markdown_list_items, repair_indented_plain_text_lines, repair_large_inline_gaps,
    replace_large_space_runs, trim_code_fence_trailing_blanks,
};
use rcontest::samples::{extract_html_samples, extract_markdown_samples};
use rcontest::server::pool::format_problem_display_title;
use rcontest::statement::{
    absolutize_atcoder_url, extract_balanced_element, extract_html_title, extract_problem_title,
    extract_task_statement_html, html_unescape, image_markdown, prefer_english_statement,
    rewrite_math_pre_blocks, rewrite_math_pre_blocks_inline, wrap_var_tags_as_math,
};

#[test]
fn normalize_statement_markdown_unindents_plain_text_but_not_code_fences() {
    let markdown = "\
### 問題文

        高橋君は $N$ 円借金をしました。
        倍返しで返済します。

### 入力例 1

```
  1000
```
";
    let normalized = normalize_statement_markdown(markdown);

    assert!(normalized.contains("\n高橋君は $N$ 円借金をしました。"));
    assert!(normalized.contains("\n倍返しで返済します。"));
    assert!(normalized.contains("```\n  1000\n```"));
    assert!(!normalized.contains("\n        高橋君"));
}

#[test]
fn atcoder_legacy_statement_keeps_breaks_and_input_format() {
    let html = r#"
<div id="task-statement">
<div class="part">
    <h3>問題文</h3>
    <section>
        高橋君は <var>4</var> x <var>4</var> マスの盤面を見つけました。<br />
        各マスには <code>.</code><code>o</code><code>x</code> のいずれかの文字が書かれています。<br />
        盤面を正面から見たときの状態が与えられます。
    </section>
</div>
<div class="io-style part">
    <h3>入力</h3>
    <section>
        入力は以下の形式で標準入力から与えられる。
<pre>
<var>c_{0,0}</var> <var>c_{0,1}</var>
<var>c_{1,0}</var> <var>c_{1,1}</var>
</pre>
        <var>1</var> 行目から <var>2</var> 行目にわたって、盤面の初期状態が半角スペース区切りで与えられる。
        <ul>
            <li><var>c_{i,j}</var> は <code>.</code><code>o</code><code>x</code> から構成される。</li>
        </ul>
    </section>
</div>
</div>
"#;
    let markdown = convert_statement_html_to_markdown(html).unwrap();

    assert!(
        markdown
            .contains("高橋君は $4$ x $4$ マスの盤面を見つけました。\n各マスには `.` `o` `x`")
    );
    assert!(markdown.contains("$c_{0,0}$ $c_{0,1}$\n\n$c_{1,0}$ $c_{1,1}$"));
    assert!(markdown.contains("$c_{1,0}$ $c_{1,1}$\n\n$1$ 行目から $2$ 行目にわたって"));
    assert!(markdown.contains("- $c_{i,j}$ は `.` `o` `x` から構成される。"));
    assert!(!markdown.contains("$c_{1,0}$ $c_{1,1}$        $1$"));
    assert!(!markdown.contains("            - "));
}

#[test]
fn atcoder_legacy_statement_keeps_nested_lists_after_math_pre_blocks() {
    let html = r#"
<div id="task-statement">
<div class="part">
    <h3>問題文</h3>
    <section>
        以下の操作を繰り返して、全ての箱に入っているマーブルの個数が <var>1</var> 個以下になるようにして下さい。<br />
        <ul>
            <li>マーブルを <var>1</var> つ選び、それを左右どちらかの隣接する箱に移動させる。</li>
            <li>ただしこのとき、<var>1</var> つの箱に複数の異なる色のマーブルを入れてはならない。</li>
        </ul>
        必要となる最小の操作回数を求めてください。<br />
    </section>
</div>
<div class="io-style part">
    <h3>入力</h3>
    <section>
        入力は以下の形式で標準入力から与えられる。
<pre>
<var>R</var> <var>G</var> <var>B</var>
</pre>
        <var>1</var> 行目に、マーブルの数を表す整数 <var>R,G,B</var> を半角スペース区切りで与える。
        <ul>
            <li><var>R</var> は番号が <var>-100</var> の箱にある赤いマーブルの数を示す。</li>
            <li><var>G</var> は番号が <var>0</var> の箱にある緑のマーブルの数を示す。</li>
            <li><var>B</var> は番号が <var>100</var> の箱にある青いマーブルの数を示す。</li>
            <li><var>R,G,B</var> の範囲はそれぞれ、 <var>1≦R,G,B≦300</var> である。</li>
            <ul>
                <li>この問題には部分点が設定されている。後述する部分点の項も参照すること。</li>
            </ul>
        </ul>
    </section>
</div>
        </div>
"#;
    let markdown = convert_statement_html_to_markdown(html).unwrap();

    assert!(markdown.contains("下さい。\n\n- マーブルを $1$ つ選び"));
    assert!(markdown.contains("- ただしこのとき、$1$ つの箱に複数の異なる色"));
    assert!(markdown.contains("必要となる最小の操作回数を求めてください。"));
    assert!(markdown.contains("$R$ $G$ $B$\n\n$1$ 行目に、マーブルの数を表す整数"));
    assert!(markdown.contains("- $R,G,B$ の範囲はそれぞれ、 $1≦R,G,B≦300$ である。"));
    assert!(markdown.contains("- この問題には部分点が設定されている。"));
    assert!(!markdown.contains("$R$ $G$ $B$        $1$"));
    assert!(!markdown.contains("            - "));
}

#[test]
fn normalize_statement_markdown_repairs_cached_legacy_atcoder_markdown() {
    let markdown = "\
### 問題文

高橋君は $4$ x $4$ マスの盤面を見つけました。        各マスには `.``o``x` のいずれかの文字が書かれています。

### 入力

$c_{0,0}$ $c_{0,1}$

$c_{1,0}$ $c_{1,1}$        $1$ 行目から $2$ 行目にわたって、盤面の初期状態が半角スペース区切りで与えられる。
            - $c_{i,j}$ は `.``o``x` から構成される。
";
    let normalized = normalize_statement_markdown(markdown);

    assert!(
        normalized
            .contains("高橋君は $4$ x $4$ マスの盤面を見つけました。\n各マスには `.` `o` `x`")
    );
    assert!(normalized.contains("$c_{1,0}$ $c_{1,1}$\n\n$1$ 行目から $2$ 行目にわたって"));
    assert!(normalized.contains("- $c_{i,j}$ は `.` `o` `x` から構成される。"));
    assert!(!normalized.contains("        "));
    assert!(!normalized.contains("`.``o``x`"));
}

#[test]
fn repairs_empty_markdown_list_items() {
    let markdown = [
        "The game proceeds as follows:",
        "- ",
        "",
        "$6$ is not written on the sheet.",
        "- ",
        "",
        "$2$ is not written on the sheet.",
        "",
    ]
    .join("\n");

    assert_eq!(
        repair_empty_markdown_list_items(&markdown),
        [
            "The game proceeds as follows:",
            "- $6$ is not written on the sheet.",
            "- $2$ is not written on the sheet.",
            "",
        ]
        .join("\n")
    );
}

#[test]
fn trims_var_math_before_wrapping_as_markdown_math() {
    let html = "<p>For the first query, <var>S_3S_4\\ldots S_9 = </var> ssissip.</p>";

    assert_eq!(
        wrap_var_tags_as_math(html),
        "<p>For the first query, $S_3S_4\\ldots S_9 =$ ssissip.</p>"
    );
}

#[test]
fn extracts_problem_title() {
    assert_eq!(
        extract_problem_title("<html><head><title>C - Write and Erase</title></head></html>"),
        Some("Write and Erase".to_string())
    );
}

#[test]
fn formats_problem_display_title() {
    assert_eq!(
        format_problem_display_title("abc073_c", "Write and Erase"),
        "abc073_c 「Write and Erase」"
    );
}

#[test]
fn character_references_are_resolved_once() {
    assert_eq!(html_unescape("&lt;b&gt; &quot;&#39;&amp;"), "<b> \"'&");
    assert_eq!(html_unescape("&amp;lt;"), "&lt;");
    assert_eq!(html_unescape("&amp;quot;"), "\"");
}

#[test]
fn titles_without_a_separator_are_kept_whole() {
    assert_eq!(
        extract_html_title("<title> A &amp; B </title>"),
        Some(" A &amp; B ".to_string())
    );
    assert_eq!(
        extract_problem_title("<title> A &amp; B </title>"),
        Some("A & B".to_string())
    );
    assert_eq!(
        extract_problem_title("<title>A - B - C</title>"),
        Some("B - C".to_string())
    );
    assert_eq!(extract_problem_title("<title>  </title>"), None);
    assert_eq!(extract_html_title("<title>no end"), None);
}

#[test]
fn math_escapes_dollars_and_stops_at_an_open_element() {
    assert_eq!(wrap_var_tags_as_math("<var>a$b</var>"), "$a\\$b$");
    assert_eq!(
        wrap_var_tags_as_math("<var>a</var> <var>b"),
        "$a$ <var>b"
    );
}

#[test]
fn preformatted_blocks_with_math_become_paragraphs() {
    let html = "<pre>\n<var>a</var> \n\n<var>b</var>\n</pre>x";
    assert_eq!(
        rewrite_math_pre_blocks(html),
        "<p><var>a</var></p>\n<p><var>b</var></p>\n<p></p>\nx"
    );
    assert_eq!(
        rewrite_math_pre_blocks_inline(html),
        "<p><var>a</var></p><p><var>b</var></p>x"
    );
    assert_eq!(rewrite_math_pre_blocks("<pre>1</pre>"), "<pre>1</pre>");
}

#[test]
fn image_addresses_are_absolute() {
    assert_eq!(absolutize_atcoder_url("http://a/b"), "http://a/b");
    assert_eq!(absolutize_atcoder_url("//img.atcoder.jp/a"), "https://img.atcoder.jp/a");
    assert_eq!(absolutize_atcoder_url("/a.png"), "https://atcoder.jp/a.png");
    assert_eq!(absolutize_atcoder_url("a.png"), "https://atcoder.jp/a.png");
    assert_eq!(
        image_markdown(" /a.png ", " figure "),
        "![figure](https://atcoder.jp/a.png)"
    );
}

#[test]
fn elements_end_at_their_own_end_tag() {
    let html = "x<div a><div>1</div>2</div>3</div>";
    assert_eq!(
        extract_balanced_element(html, 1),
        Some("<div a><div>1</div>2</div>".to_string())
    );
    assert_eq!(extract_balanced_element("<div><div></div>", 0), None);
    assert_eq!(extract_balanced_element("<div>", 5), None);
    assert_eq!(extract_balanced_element("", 0), None);
    assert_eq!(extract_balanced_element("é", 0), None);
    assert_eq!(
        extract_balanced_element("é<p>ü</p>", 2),
        Some("<p>ü</p>".to_string())
    );
    assert_eq!(
        extract_task_statement_html("<p><div id=\"task-statement\">a</div></p>"),
        Some("<div id=\"task-statement\">a</div>".to_string())
    );
    assert_eq!(extract_task_statement_html("<div id=\"other\"></div>"), None);
}

#[test]
fn english_part_is_preferred() {
    assert_eq!(
        prefer_english_statement("配点\n\nScore : 100 points\n".to_string()),
        "Score : 100 points\n"
    );
    assert_eq!(
        prefer_english_statement("x\n### Problem Statement\ny".to_string()),
        "### Problem Statement\ny"
    );
    assert_eq!(prefer_english_statement("x".to_string()), "x");
}

#[test]
fn sentences_start_on_their_own_lines() {
    assert_eq!(
        repair_collapsed_line_breaks("終わり。  次は？！（これ）。\n"),
        "終わり。\n次は？\n！\n（これ）。\n"
    );
    assert_eq!(repair_collapsed_line_breaks("終わり。」"), "終わり。」");
}

#[test]
fn code_is_not_unindented() {
    assert_eq!(
        repair_indented_plain_text_lines("  a\n ```\n  b\n```\n  c"),
        "a\n ```\n  b\n```\nc"
    );
}

#[test]
fn long_gaps_become_paragraphs() {
    assert_eq!(replace_large_space_runs("a   b    c\td"), "a   b\n\nc d");
    assert_eq!(
        repair_large_inline_gaps("a    b\n```\na    b\n```"),
        "a\n\nb\n```\na    b\n```"
    );
}

#[test]
fn adjacent_code_spans_are_parted() {
    assert_eq!(
        repair_adjacent_inline_code_spans("`a``b`\n```\n`a``b`\n```\n"),
        "`a` `b`\n```\n`a``b`\n```\n"
    );
}

#[test]
fn code_blocks_do_not_end_with_blank_lines() {
    assert_eq!(
        trim_code_fence_trailing_blanks("```\n1\n\n  \n```\n\nx"),
        "```\n1\n```\n\nx"
    );
}

#[test]
fn samples_are_read_from_code_blocks() {
    let markdown = "### Sample Input 1\n\n```\n1 2\n```\n\n### Sample Output 1\n\n```\n3\n```\n\n### 入力例 2\n```\n1 2\n```\n### 出力例 2\n```\n3\n```\n### Sample Input 3\n```\n5\n```\n";
    let samples = extract_markdown_samples(markdown);
    assert_eq!(samples.len(), 1);
    assert_eq!(samples[0].input, "1 2");
    assert_eq!(samples[0].output, "3");
}

#[test]
fn samples_are_read_from_preformatted_blocks() {
    let input = "<h3>Sample Input 1</h3><pre>1 &lt; 2\n</pre>";
    let output = "<h3>Sample Output 1</h3><pre>yes</pre>";
    let samples = extract_html_samples(&format!("{input}{}{output}", " ".repeat(240)));
    assert_eq!(samples.len(), 1);
    assert_eq!(samples[0].input, "1 < 2");
    assert_eq!(samples[0].output, "yes");
    // So near, the announcement of the input counts for the second block too.
    assert_eq!(extract_html_samples(&format!("{input}{output}")).len(), 0);
}

#[test]
fn statement_is_converted_as_prepared_and_finished() {
    let html = "<div><p>Find <var>N</var>.<br>Twice.</p><img src=\"/f.png\" alt=\"f\"></div>";
    assert_eq!(
        prepare_statement_html(html),
        "<div><p>Find $N$.<br>Twice.</p><img src=\"/f.png\" alt=\"f\"></div>"
    );
    let converted = convert_statement_html_to_markdown(html).unwrap();
    assert!(converted.contains("Find $N$. \nTwice."));
    assert!(converted.contains("![f](https://atcoder.jp/f.png)"));
    assert_eq!(
        finish_statement_markdown("x\n## Problem Statement\n  a".to_string()),
        "## Problem Statement\na"
    );
}

#[test]
fn server_drops_line_breaks() {
    let prepared = prepare_server_html("<p>Find <var>N</var>.<br>Twice.</p>");
    assert_eq!(prepared, "<p>Find $N$.<br>Twice.</p>");
    let converted = convert_server_html(&prepared).unwrap();
    assert!(converted.contains("Find $N$. Twice."));
    assert_eq!(
        finish_server_markdown("-\n\nitem\n```\n1\n\n```".to_string()),
        "- item\n```\n1\n```"
    );
}

#[test]
fn problem_page_is_read() {
    let html = "<html><title>C - Write and Erase</title><body><div id=\"task-statement\"><h3>Problem Statement</h3><p>Count.</p><h3>Sample Input 1</h3><pre>3\n</pre><h3>Sample Output 1</h3><pre>1\n</pre></div></body></html>";
    let detail = parse_problem_page(html).unwrap_or_else(|_| panic!("a problem"));
    assert_eq!(detail.title, Some("Write and Erase".to_string()));
    assert!(detail.statement_markdown.contains("Count."));
    assert_eq!(detail.samples.len(), 1);
    assert_eq!(detail.samples[0].input, "3");
    assert_eq!(detail.samples[0].output, "1");
}

#[test]
fn statements_are_not_longer_than_a_parser_can_hold() {
    let html = " ".repeat(0x4000_0000);
    assert_eq!(convert_server_html(&html), Err(StatementError::TooLong));
}

#[test]
fn page_without_a_statement_is_no_problem() {
    assert!(matches!(
        parse_problem_page("<html></html>"),
        Err(StatementError::NotFound)
    ));
}
