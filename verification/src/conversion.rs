//! From the HTML of a statement to its Markdown.

use vstd::prelude::*;

use std::cell::RefCell;
use std::rc::Rc;

use html_to_markdown::markdown::{
    CodeHandler, HeadingHandler, ListHandler, ParagraphHandler, StyledTextHandler, TableHandler,
    WebpageChromeRemover,
};
use html_to_markdown::{
    convert_html_to_markdown, HandleTag, HtmlElement, MarkdownWriter, StartTagOutcome, TagHandler,
};

use crate::markdown;
use crate::outside;
use crate::samples;
use crate::seqs;
use crate::statement;
use crate::statement::{ProblemDetail, ProblemDetailModel};
use crate::text;

verus! {

/// `html_to_markdown::MarkdownWriter`, which collects Markdown text.
#[verifier::external_type_specification]
#[verifier::external_body]
pub struct ExMarkdownWriter(html_to_markdown::MarkdownWriter);

/// `html_to_markdown::HtmlElement`, an element with its attributes.
#[verifier::external_type_specification]
#[verifier::external_body]
pub struct ExHtmlElement(html_to_markdown::HtmlElement);

/// `html_to_markdown::StartTagOutcome`, which says whether the content of an element is skipped.
#[verifier::external_type_specification]
#[verifier::external_body]
pub struct ExStartTagOutcome(html_to_markdown::StartTagOutcome);

/// The Markdown that a writer has collected.
pub uninterp spec fn written(writer: html_to_markdown::MarkdownWriter) -> Seq<char>;

/// The attributes of an element; of several with one name, the first.
pub uninterp spec fn attributes(element: html_to_markdown::HtmlElement) -> Map<Seq<char>, Seq<char>>;

/// `MarkdownWriter::push_str` appends the given text.
pub assume_specification[ html_to_markdown::MarkdownWriter::push_str ](
    writer: &mut html_to_markdown::MarkdownWriter,
    addition: &str,
)
    ensures
        written(*final(writer)) == written(*old(writer)) + addition@,
;

/// `MarkdownWriter::push_newline` appends a line feed.
pub assume_specification[ html_to_markdown::MarkdownWriter::push_newline ](
    writer: &mut html_to_markdown::MarkdownWriter,
)
    ensures
        written(*final(writer)) == written(*old(writer)).push('\n'),
;

/// `HtmlElement::attr` is the value of the attribute with the given name, if there is one.
pub assume_specification[ html_to_markdown::HtmlElement::attr ](
    element: &html_to_markdown::HtmlElement,
    name: &str,
) -> (r: Option<String>)
    ensures
        match r {
            Some(value) => attributes(*element).contains_key(name@) && attributes(*element)[name@]
                == value@,
            None => !attributes(*element).contains_key(name@),
        },
;

/// Whether the content of an element is visited after its start tag was handled with an outcome.
pub uninterp spec fn is_visited(outcome: html_to_markdown::StartTagOutcome) -> bool;

/// The variant `StartTagOutcome::Continue`, with which the content of the element is visited.
#[verifier::external_body]
fn visit_content() -> (r: StartTagOutcome)
    ensures
        is_visited(r),
{
    StartTagOutcome::Continue
}

/// Writes a line break for each `br` element, or leaves them all out.
pub struct BreakHandler {
    pub keeps_breaks: bool,
}

impl HandleTag for BreakHandler {
    fn should_handle(&self, tag: &str) -> (r: bool)
        ensures
            r == (self.keeps_breaks && tag@ == "br"@),
    {
        self.keeps_breaks && text::same(tag, "br")
    }

    fn handle_tag_start(&mut self, _tag: &HtmlElement, writer: &mut MarkdownWriter) -> (r:
        StartTagOutcome)
        ensures
            written(*final(writer)) == written(*old(writer)).push('\n'),
            is_visited(r),
    {
        writer.push_newline();
        visit_content()
    }
}

/// What is written for an image element with the given attributes.
pub open spec fn image_of(attributes: Map<Seq<char>, Seq<char>>) -> Seq<char> {
    if attributes.contains_key("src"@) {
        statement::image_text(
            attributes["src"@],
            if attributes.contains_key("alt"@) {
                attributes["alt"@]
            } else {
                seq![]
            },
        )
    } else {
        seq![]
    }
}

/// Writes each `img` element as a Markdown image. Without it, the figures of a statement would be
/// lost.
pub struct ImageHandler;

impl HandleTag for ImageHandler {
    fn should_handle(&self, tag: &str) -> (r: bool)
        ensures
            r == (tag@ == "img"@),
    {
        text::same(tag, "img")
    }

    fn handle_tag_start(&mut self, tag: &HtmlElement, writer: &mut MarkdownWriter) -> (r:
        StartTagOutcome)
        ensures
            written(*final(writer)) == written(*old(writer)) + image_of(attributes(*tag)),
            is_visited(r),
    {
        if let Some(src) = tag.attr("src") {
            let alt = match tag.attr("alt") {
                Some(alt) => alt,
                None => String::new(),
            };
            let image = statement::image_markdown(src.as_str(), alt.as_str());
            writer.push_str(image.as_str());
        }
        assert(written(*writer) =~= written(*old(writer)) + image_of(attributes(*tag)));
        visit_content()
    }
}

/// What `html_to_markdown::convert_html_to_markdown` makes of `html` with the handlers for page
/// chrome, paragraphs, headings, lists, styled text, code and tables that the crate has, and with
/// `BreakHandler` and `ImageHandler`.
pub uninterp spec fn converted_html(html: Seq<char>, keeps_breaks: bool) -> Option<Seq<char>>;

/// `html_to_markdown::convert_html_to_markdown`, with line breaks kept or left out. All that is
/// claimed is that the result depends on the arguments alone. Its parser panics on a text that does
/// not fit its buffers.
#[verifier::external_body]
fn convert_html(html: &str, keeps_breaks: bool) -> (r: Option<String>)
    requires
        html@.len() <= outside::MAX_PAGE_LENGTH,
    ensures
        r.deep_view() == converted_html(html@, keeps_breaks),
{
    let mut handlers: Vec<TagHandler> = vec![
        Rc::new(RefCell::new(WebpageChromeRemover)),
        Rc::new(RefCell::new(ParagraphHandler)),
        Rc::new(RefCell::new(HeadingHandler)),
        Rc::new(RefCell::new(ListHandler)),
        Rc::new(RefCell::new(StyledTextHandler)),
        Rc::new(RefCell::new(CodeHandler)),
        Rc::new(RefCell::new(TableHandler::new())),
        Rc::new(RefCell::new(BreakHandler { keeps_breaks })),
        Rc::new(RefCell::new(ImageHandler)),
    ];
    convert_html_to_markdown(html.as_bytes(), &mut handlers).ok()
}

/// The HTML of a statement as it is handed to the conversion.
pub open spec fn prepared_html(html: Seq<char>) -> Seq<char> {
    statement::var_as_math(statement::math_pre_rewritten(html, "</p>\n"@, "<p></p>\n"@))
}

/// The English part of the converted statement, after all repairs.
pub open spec fn finished_markdown(converted: Seq<char>) -> Seq<char> {
    markdown::normalized(statement::english_part(converted))
}

/// The HTML of a statement as it is handed to the conversion.
pub fn prepare_statement_html(statement_html: &str) -> (r: String)
    ensures
        r@ == prepared_html(statement_html@),
{
    let html = statement::rewrite_math_pre_blocks(statement_html);
    statement::wrap_var_tags_as_math(html.as_str())
}

/// The English part of the converted statement, after all repairs.
pub fn finish_statement_markdown(converted: String) -> (r: String)
    ensures
        r@ == finished_markdown(converted@),
{
    let english = statement::prefer_english_statement(converted);
    markdown::normalize_statement_markdown(english.as_str())
}

/// What can be wrong with the page of a problem.
#[derive(Clone, Copy, Debug, PartialEq, Eq, Structural)]
pub enum StatementError {
    /// There is no statement on the page.
    NotFound,
    /// The statement is too long to be parsed.
    TooLong,
    /// The statement could not be converted to Markdown.
    NotConverted,
}

/// The Markdown that comes of prepared HTML, given what it is converted to.
pub open spec fn conversion_result(
    prepared: Seq<char>,
    finished: Option<Seq<char>>,
) -> Result<Seq<char>, StatementError> {
    if prepared.len() > outside::MAX_PAGE_LENGTH {
        Err(StatementError::TooLong)
    } else {
        match finished {
            Some(markdown) => Ok(markdown),
            None => Err(StatementError::NotConverted),
        }
    }
}

/// The Markdown of a statement, or why there is none.
pub open spec fn statement_markdown(html: Seq<char>) -> Result<Seq<char>, StatementError> {
    let prepared = prepared_html(html);
    conversion_result(
        prepared,
        match converted_html(prepared, true) {
            Some(converted) => Some(finished_markdown(converted)),
            None => None,
        },
    )
}

/// The text in a result.
pub open spec fn text_of(r: Result<String, StatementError>) -> Result<Seq<char>, StatementError> {
    match r {
        Ok(text) => Ok(text@),
        Err(error) => Err(error),
    }
}

/// The Markdown of a statement, or why there is none.
pub fn convert_statement_html_to_markdown(statement_html: &str) -> (r: Result<
    String,
    StatementError,
>)
    ensures
        text_of(r) == statement_markdown(statement_html@),
{
    let html = prepare_statement_html(statement_html);
    if !outside::fits_parser(html.as_str()) {
        return Err(StatementError::TooLong);
    }
    match convert_html(html.as_str(), true) {
        Some(converted) => Ok(finish_statement_markdown(converted)),
        None => Err(StatementError::NotConverted),
    }
}

/// The problem on a page, given its statement in HTML and in Markdown: the samples come from the
/// Markdown, or if it has none from the HTML.
pub open spec fn detail_of(
    html: Seq<char>,
    statement_html: Seq<char>,
    statement_markdown: Seq<char>,
) -> ProblemDetailModel {
    let found = samples::markdown_samples(statement_markdown);
    ProblemDetailModel {
        title: statement::problem_title(html),
        statement_markdown,
        samples: if found.len() == 0 {
            samples::html_samples(statement_html)
        } else {
            found
        },
    }
}

/// The problem on a page, given its statement in HTML and in Markdown.
pub fn problem_detail(html: &str, statement_html: &str, statement_markdown: String) -> (r:
    ProblemDetail)
    ensures
        r.deep_view() == detail_of(html@, statement_html@, statement_markdown@),
{
    let found = samples::extract_markdown_samples(statement_markdown.as_str());
    assert(found.deep_view().len() == found@.len());
    let samples = if found.len() == 0 {
        samples::extract_html_samples(statement_html)
    } else {
        found
    };
    ProblemDetail { title: statement::extract_problem_title(html), statement_markdown, samples }
}

/// The problem that the page `html` shows.
pub fn parse_problem_page(html: &str) -> (r: Result<ProblemDetail, StatementError>)
    ensures
        match statement::task_statement(html@) {
            None => r matches Err(StatementError::NotFound),
            Some(statement_html) => match statement_markdown(statement_html) {
                Err(error) => r matches Err(found) && found == error,
                Ok(markdown) => r matches Ok(detail) && detail.deep_view() == detail_of(
                    html@,
                    statement_html,
                    markdown,
                ),
            },
        },
{
    let statement_html = match statement::extract_task_statement_html(html) {
        None => {
            return Err(StatementError::NotFound);
        },
        Some(statement_html) => statement_html,
    };
    match convert_statement_html_to_markdown(statement_html.as_str()) {
        Err(error) => Err(error),
        Ok(statement_markdown) => Ok(
            problem_detail(html, statement_html.as_str(), statement_markdown),
        ),
    }
}

/// The Markdown that the server shows for a statement of the given converted text.
pub open spec fn finished_server_markdown(converted: Seq<char>) -> Seq<char> {
    markdown::fences_trimmed(
        markdown::list_items_repaired(statement::english_part(converted)),
    )
}

/// The HTML of a statement as the server hands it to the conversion.
pub open spec fn prepared_server_html(html: Seq<char>) -> Seq<char> {
    statement::var_as_math(statement::math_pre_rewritten(html, "</p>"@, ""@))
}

/// The HTML of a statement as the server hands it to the conversion.
pub fn prepare_server_html(statement_html: &str) -> (r: String)
    ensures
        r@ == prepared_server_html(statement_html@),
{
    let html = statement::rewrite_math_pre_blocks_inline(statement_html);
    statement::wrap_var_tags_as_math(html.as_str())
}

/// The Markdown that the server shows for a statement of the given converted text.
pub fn finish_server_markdown(converted: String) -> (r: String)
    ensures
        r@ == finished_server_markdown(converted@),
{
    let english = statement::prefer_english_statement(converted);
    let repaired = markdown::repair_empty_markdown_list_items(english.as_str());
    markdown::trim_code_fence_trailing_blanks(repaired.as_str())
}

/// The Markdown that the server shows for prepared HTML, or why there is none.
pub open spec fn server_markdown(prepared: Seq<char>) -> Result<Seq<char>, StatementError> {
    conversion_result(
        prepared,
        match converted_html(prepared, false) {
            Some(converted) => Some(finished_server_markdown(converted)),
            None => None,
        },
    )
}

/// The Markdown that the server shows for prepared HTML, or why there is none.
pub fn convert_server_html(prepared: &str) -> (r: Result<String, StatementError>)
    ensures
        text_of(r) == server_markdown(prepared@),
{
    if !outside::fits_parser(prepared) {
        return Err(StatementError::TooLong);
    }
    match convert_html(prepared, false) {
        Some(converted) => Ok(finish_server_markdown(converted)),
        None => Err(StatementError::NotConverted),
    }
}

/// An image is written from its address, with its description if it has one; without an address it
/// is left out.
pub proof fn image_needs_address(attributes: Map<Seq<char>, Seq<char>>)
    ensures
        !attributes.contains_key("src"@) ==> image_of(attributes).len() == 0,
        attributes.contains_key("src"@) && attributes.contains_key("alt"@) ==> image_of(attributes)
            == statement::image_text(attributes["src"@], attributes["alt"@]),
        attributes.contains_key("src"@) && !attributes.contains_key("alt"@) ==> image_of(attributes)
            == statement::image_text(attributes["src"@], seq![]),
{
}

/// Before the conversion, blocks with math in them become paragraphs, and then the math in what is
/// left is marked; the server puts no line feeds between the paragraphs.
pub proof fn math_is_marked_before_conversion(html: Seq<char>, rewritten: Seq<char>, inline: Seq<char>)
    requires
        rewritten == statement::math_pre_rewritten(html, "</p>\n"@, "<p></p>\n"@),
        inline == statement::math_pre_rewritten(html, "</p>"@, ""@),
    ensures
        prepared_html(html) == statement::var_as_math(rewritten),
        prepared_server_html(html) == statement::var_as_math(inline),
        !seqs::contains(html, "<pre"@) && !seqs::contains(html, "<var"@) ==> prepared_html(html)
            == html && prepared_server_html(html) == html,
{
    if !seqs::contains(html, "<pre"@) && !seqs::contains(html, "<var"@) {
        statement::nothing_else_is_rewritten(html, "</p>\n"@, "<p></p>\n"@);
        statement::nothing_else_is_rewritten(html, "</p>"@, ""@);
        statement::nothing_else_is_math(html);
    }
}

/// After the conversion only the English part is kept, and it is repaired; the server makes only
/// the repairs of list items and of code blocks.
pub proof fn english_part_is_repaired(converted: Seq<char>, part: Seq<char>)
    requires
        part == statement::english_part(converted),
    ensures
        finished_markdown(converted) == markdown::normalized(part),
        finished_server_markdown(converted) == markdown::fences_trimmed(
            markdown::list_items_repaired(part),
        ),
{
}

/// A statement is converted with its line breaks kept, and the server leaves them out. One that is
/// too long or that cannot be converted has no Markdown, and the error says which.
pub proof fn statement_is_converted(html: Seq<char>, prepared: Seq<char>, inline: Seq<char>)
    requires
        prepared == prepared_html(html),
        inline == prepared_server_html(html),
    ensures
        prepared.len() > outside::MAX_PAGE_LENGTH ==> statement_markdown(html) == Err::<
            Seq<char>,
            StatementError,
        >(StatementError::TooLong),
        inline.len() > outside::MAX_PAGE_LENGTH ==> server_markdown(inline) == Err::<
            Seq<char>,
            StatementError,
        >(StatementError::TooLong),
        prepared.len() <= outside::MAX_PAGE_LENGTH ==> match converted_html(prepared, true) {
            None => statement_markdown(html) == Err::<Seq<char>, StatementError>(
                StatementError::NotConverted,
            ),
            Some(converted) => statement_markdown(html) == Ok::<Seq<char>, StatementError>(
                markdown::normalized(statement::english_part(converted)),
            ),
        },
        inline.len() <= outside::MAX_PAGE_LENGTH ==> match converted_html(inline, false) {
            None => server_markdown(inline) == Err::<Seq<char>, StatementError>(
                StatementError::NotConverted,
            ),
            Some(converted) => server_markdown(inline) == Ok::<Seq<char>, StatementError>(
                markdown::fences_trimmed(
                    markdown::list_items_repaired(statement::english_part(converted)),
                ),
            ),
        },
{
}

/// The details of a problem are the title on its page, its statement, and the samples in its
/// Markdown; only if there are none, those in its HTML.
pub proof fn details_are_those_of_page(
    html: Seq<char>,
    statement_html: Seq<char>,
    statement_markdown: Seq<char>,
)
    ensures
        ({
            let detail = detail_of(html, statement_html, statement_markdown);
            &&& detail.title == statement::problem_title(html)
            &&& detail.statement_markdown == statement_markdown
            &&& samples::markdown_samples(statement_markdown).len() > 0 ==> detail.samples
                == samples::markdown_samples(statement_markdown)
            &&& samples::markdown_samples(statement_markdown).len() == 0 ==> detail.samples
                == samples::html_samples(statement_html)
        }),
{
}
/// A result is passed on as it is.
pub proof fn results_are_passed_on(text: String, error: StatementError)
    ensures
        text_of(Ok(text)) == Ok::<Seq<char>, StatementError>(text@),
        text_of(Err(error)) == Err::<Seq<char>, StatementError>(error),
{
}
/// The page of a problem is read as its title, its statement and its samples; a page without a
/// statement, and one whose statement cannot be converted, have an error that says so.
pub proof fn page_is_read(html: &str, page: Result<ProblemDetail, StatementError>, statement: Seq<char>)
    requires
        call_ensures(parse_problem_page, (html,), page),
    ensures
        statement::task_statement(html@) is None ==> page is Err && page->Err_0
            == StatementError::NotFound,
        statement::task_statement(html@) == Some(statement) ==> {
            let prepared = statement::var_as_math(
                statement::math_pre_rewritten(statement, "</p>\n"@, "<p></p>\n"@),
            );
            &&& prepared.len() > outside::MAX_PAGE_LENGTH ==> page is Err && page->Err_0
                == StatementError::TooLong
            &&& prepared.len() <= outside::MAX_PAGE_LENGTH && converted_html(prepared, true) is None
                ==> page is Err && page->Err_0 == StatementError::NotConverted
            &&& prepared.len() <= outside::MAX_PAGE_LENGTH && converted_html(prepared, true) is Some
                ==> {
                let shown = markdown::normalized(
                    statement::english_part(converted_html(prepared, true)->0),
                );
                let found = samples::markdown_samples(shown);
                &&& page is Ok
                &&& page->Ok_0.title.deep_view() == statement::problem_title(html@)
                &&& page->Ok_0.statement_markdown@ == shown
                &&& found.len() > 0 ==> page->Ok_0.samples.deep_view() == found
                &&& found.len() == 0 ==> page->Ok_0.samples.deep_view() == samples::html_samples(
                    statement,
                )
            }
        },
{
}
} // verus!
