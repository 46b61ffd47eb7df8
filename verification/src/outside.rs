//! Calls into other crates, and what is taken for granted about them.

use vstd::prelude::*;
use vstd::utf8::*;

use async_compression::futures::bufread::GzipDecoder;
use futures::io::{AsyncReadExt, BufReader};
use futures::FutureExt;
use ratex_font::{katex_ttf_glyph_char, FontId};
use scraper::{ElementRef, Html, Selector};

verus! {

pub open spec fn is_lower_hex(c: char) -> bool {
    '0' <= c <= '9' || 'a' <= c <= 'f'
}

/// Whether `s` is a random (version 4) UUID in lower-case hyphenated form.
pub open spec fn is_uuid(s: Seq<char>) -> bool {
    &&& s.len() == 36
    &&& forall|i: int|
        0 <= i < 36 ==> if i == 8 || i == 13 || i == 18 || i == 23 {
            #[trigger] s[i] == '-'
        } else {
            is_lower_hex(s[i])
        }
    &&& s[14] == '4'
    &&& s[19] == '8' || s[19] == '9' || s[19] == 'a' || s[19] == 'b'
}

/// `uuid::Uuid::new_v4` written out by `to_string`: a version 4 UUID in lower-case hyphenated
/// form. Which one is a matter of chance, so nothing is said of that.
#[verifier::external_body]
pub(crate) fn new_uuid() -> (r: String)
    ensures
        is_uuid(r@),
{
    uuid::Uuid::new_v4().to_string()
}

/// `time::OffsetDateTime::now_utc` as a Unix second. It depends on the clock, so nothing is said
/// of it.
#[verifier::external_body]
pub(crate) fn unix_now() -> (r: i64) {
    time::OffsetDateTime::now_utc().unix_timestamp()
}

/// `std::time::SystemTime::now` in seconds since the Unix epoch, or nothing before it. It depends on
/// the clock, so nothing is said of it.
#[verifier::external_body]
fn system_second() -> (r: Option<i64>) {
    let elapsed = std::time::SystemTime::now().duration_since(std::time::UNIX_EPOCH).ok()?;
    Some(elapsed.as_secs() as i64)
}

/// The second since the Unix epoch, or 0 before it.
pub(crate) fn current_second() -> (r: i64) {
    match system_second() {
        Some(second) => second,
        None => 0,
    }
}

/// The `href` attribute and the text of an element.
pub type Cell = (Option<String>, String);

/// How many characters a page may have. The parsers keep a text in a buffer of at most `u32::MAX`
/// bytes, and no character becomes more than four.
pub const MAX_PAGE_LENGTH: usize = 0x3fff_ffff;

/// Whether a page is short enough for the parsers.
pub(crate) fn fits_parser(html: &str) -> (r: bool)
    ensures
        r == (html@.len() <= MAX_PAGE_LENGTH),
{
    html.unicode_len() <= MAX_PAGE_LENGTH
}

/// The selectors by which pages are read.
pub open spec fn is_page_selector(selector: Seq<char>) -> bool {
    ||| selector == "table.table-bordered tbody tr"@
    ||| selector == "td:nth-child(3) a"@
    ||| selector == "td:last-child a.submission-details-link"@
    ||| selector == "td:first-child time"@
    ||| selector == "td:nth-child(7)"@
    ||| selector == "td:nth-child(7) span"@
    ||| selector == "#submission-code"@
}

/// What `scraper` finds in a page: for each element of the document that matches `row_selector`,
/// in the order in which the parser made them, and for each of `cell_selectors`, the first element
/// below it that matches; nothing at all, if one of the selectors is not valid.
pub uninterp spec fn selected_cells(
    html: Seq<char>,
    row_selector: Seq<char>,
    cell_selectors: Seq<Seq<char>>,
) -> Option<Seq<Seq<Option<(Option<Seq<char>>, Seq<char>)>>>>;

/// `scraper::Html::parse_document` on `html`, `Html::select` with `row_selector` on the document,
/// and for each element found `ElementRef::select` with each of `cell_selectors`, of which the
/// first result is kept: its attribute `href` and its text. Besides that the result depends on the
/// arguments alone, it is claimed that each row has one entry for each cell selector. The parser
/// panics on a page that does not fit its buffers.
#[verifier::external_body]
pub(crate) fn select_cells(html: &str, row_selector: &str, cell_selectors: &Vec<String>) -> (r:
    Option<Vec<Vec<Option<Cell>>>>)
    requires
        html@.len() <= MAX_PAGE_LENGTH,
        is_page_selector(row_selector@),
        forall|i: int|
            0 <= i < cell_selectors@.len() ==> is_page_selector((#[trigger] cell_selectors@[i])@),
    ensures
        r.deep_view() == selected_cells(html@, row_selector@, cell_selectors.deep_view()),
        r matches Some(rows) ==> forall|i: int|
            0 <= i < rows@.len() ==> (#[trigger] rows@[i])@.len() == cell_selectors@.len(),
{
    let rows = Selector::parse(row_selector).ok()?;
    let parsed = cell_selectors.iter().map(|cell| Selector::parse(cell).ok());
    let cells = parsed.collect::<Option<Vec<Selector>>>()?;
    let document = Html::parse_document(html);
    let cell_of = |e: ElementRef| (e.attr("href").map(str::to_string), e.text().collect());
    let first = |row: &ElementRef, cell: &Selector| row.select(cell).next().map(cell_of);
    let cells_of = |row: ElementRef| cells.iter().map(|cell| first(&row, cell)).collect();
    Some(document.select(&rows).map(cells_of).collect())
}

/// The text of the first element of a page that matches a selector, as `scraper` finds it; nothing
/// at all, if the selector is not valid.
pub uninterp spec fn selected_text(html: Seq<char>, selector: Seq<char>) -> Option<
    Option<Seq<char>>,
>;

/// `scraper::Html::parse_document` on `html` and `Html::select` with `selector` on the document, of
/// which the text of the first result is kept. All that is claimed is that the result depends on
/// the arguments alone. The parser panics on a page that does not fit its buffers.
#[verifier::external_body]
pub(crate) fn select_text(html: &str, selector: &str) -> (r: Option<Option<String>>)
    requires
        html@.len() <= MAX_PAGE_LENGTH,
        is_page_selector(selector@),
    ensures
        r.deep_view() == selected_text(html@, selector@),
{
    let selector = Selector::parse(selector).ok()?;
    let document = Html::parse_document(html);
    let first = document.select(&selector).next();
    Some(first.map(|element| element.text().collect::<String>()))
}

/// The format of a date and a time of day with its offset from UTC.
pub open spec fn date_time_format() -> Seq<char> {
    "[year]-[month]-[day] [hour]:[minute]:[second][offset_hour][offset_minute]"@
}

/// Whether `time::format_description::parse` takes `format` for a format description.
pub uninterp spec fn is_time_format(format: Seq<char>) -> bool;

/// `time::format_description::parse`: whether it succeeds, which depends on `format` alone. It panics
/// on some formats with components inside of others, so nothing is said of other formats.
#[verifier::external_body]
pub(crate) fn check_time_format(format: &str) -> (r: bool)
    requires
        format@ == date_time_format(),
    ensures
        r == is_time_format(format@),
{
    time::format_description::parse(format).is_ok()
}

/// The Unix second that `text` writes in the given format, as `time` reads it.
pub uninterp spec fn offset_time(text: Seq<char>, format: Seq<char>) -> Option<i64>;

/// `time::OffsetDateTime::parse` on `text` with the format description `format`, as a Unix second.
/// All that is claimed is that the result depends on the arguments alone. The description is read
/// as in `check_time_format`.
#[verifier::external_body]
pub(crate) fn parse_offset_time(text: &str, format: &str) -> (r: Option<i64>)
    requires
        format@ == date_time_format(),
    ensures
        r == offset_time(text@, format@),
{
    let format = time::format_description::parse(format).ok()?;
    Some(time::OffsetDateTime::parse(text, &format).ok()?.unix_timestamp())
}

/// A text with its characters in lower case, as `str::to_lowercase` gives it.
pub uninterp spec fn lowercased(text: Seq<char>) -> Seq<char>;

/// `str::to_lowercase`, which goes by the tables of Unicode. All that is claimed is that the result
/// depends on the text alone.
#[verifier::external_body]
pub(crate) fn to_lowercase(text: &str) -> (r: String)
    ensures
        r@ == lowercased(text@),
{
    text.to_lowercase()
}

/// The strings under `key` in the elements of the array under `array` in a TOML document, as `toml`
/// reads it: nothing for an element that has none, and nothing at all, if the document cannot be
/// read. Without such an array there are none.
pub uninterp spec fn toml_strings(document: Seq<char>, array: Seq<char>, key: Seq<char>) -> Option<
    Seq<Option<Seq<char>>>,
>;

/// `toml::Value` from `document` by `str::parse`, and `toml::Value::get`, `as_array` and `as_str`
/// on it: for each element of the array under `array`, the string under `key`. All that is claimed
/// is that the result depends on the arguments alone.
#[verifier::external_body]
pub(crate) fn read_toml_strings(document: &str, array: &str, key: &str) -> (r: Option<
    Vec<Option<String>>,
>)
    ensures
        r.deep_view() == toml_strings(document@, array@, key@),
{
    let value = document.parse::<toml::Value>().ok()?;
    let elements = value.get(array).and_then(toml::Value::as_array);
    let string = |element: &toml::Value| Some(element.get(key)?.as_str()?.to_string());
    Some(elements.map_or(Vec::new(), |elements| elements.iter().map(string).collect()))
}

/// The character with a code, if there is one: surrogates and codes above the last plane have none.
pub open spec fn scalar(code: u32) -> Option<char> {
    if code <= 0xd7ff || (0xe000 <= code && code <= 0x10ffff) {
        Some(code as char)
    } else {
        None
    }
}

/// `char::from_u32`: the character with the given code, if there is one.
#[verifier::external_body]
pub(crate) fn char_from_u32(code: u32) -> (r: Option<char>)
    ensures
        r == scalar(code),
{
    char::from_u32(code)
}

/// Whether `ratex_font` has a font with this name.
pub open spec fn is_font_name(name: Seq<char>) -> bool {
    ||| name == "AMS-Regular"@
    ||| name == "Caligraphic-Regular"@
    ||| name == "Fraktur-Regular"@
    ||| name == "Fraktur-Bold"@
    ||| name == "Main-Bold"@
    ||| name == "Main-BoldItalic"@
    ||| name == "Main-Italic"@
    ||| name == "Main-Regular"@
    ||| name == "Math-BoldItalic"@
    ||| name == "Math-Italic"@
    ||| name == "SansSerif-Bold"@
    ||| name == "SansSerif-Italic"@
    ||| name == "SansSerif-Regular"@
    ||| name == "Script-Regular"@
    ||| name == "Size1-Regular"@
    ||| name == "Size2-Regular"@
    ||| name == "Size3-Regular"@
    ||| name == "Size4-Regular"@
    ||| name == "Typewriter-Regular"@
    ||| name == "CJK-Regular"@
    ||| name == "CJK-Fallback"@
    ||| name == "Emoji-Fallback"@
}

/// The character under which the font with the given name holds the glyph for a code, as
/// `ratex_font` has it; nothing, if there is no font with that name.
pub uninterp spec fn katex_glyph(font_name: Seq<char>, code: u32) -> Option<char>;

/// `ratex_font::katex_ttf_glyph_char` for the font that `ratex_font::FontId::parse` finds under
/// `font_name`: the result depends on the arguments alone, and there is one exactly for the names
/// that `parse` knows. Which character it is is not said.
#[verifier::external_body]
pub(crate) fn glyph_char(font_name: &str, code: u32) -> (r: Option<char>)
    ensures
        r == katex_glyph(font_name@, code),
        r is Some <==> is_font_name(font_name@),
{
    FontId::parse(font_name).map(|font_id| katex_ttf_glyph_char(font_id, code))
}

/// `ratex_katex_fonts::ttf_bytes`: the bytes of the font file with the given name, if there is one. A
/// development build reads them from the disk, so nothing is said of the result.
#[verifier::external_body]
pub(crate) fn font_bytes(file_name: &str) -> (r: Option<Vec<u8>>) {
    ratex_katex_fonts::ttf_bytes(file_name).map(|bytes| bytes.into_owned())
}

/// The bytes that a gzip file holds, as `async_compression` reads it; nothing, if it cannot be read.
pub uninterp spec fn gunzipped(bytes: Seq<u8>) -> Option<Seq<u8>>;

/// `async_compression::futures::bufread::GzipDecoder` on `bytes`, read to its end. The bytes are all
/// there, so that reading never waits. All that is claimed is that the result depends on the bytes
/// alone.
#[verifier::external_body]
pub(crate) fn gunzip(bytes: &Vec<u8>) -> (r: Option<Vec<u8>>)
    ensures
        r.deep_view() == gunzipped(bytes@),
{
    let mut decoder = GzipDecoder::new(BufReader::new(bytes.as_slice()));
    let mut decompressed = Vec::new();
    let read = decoder.read_to_end(&mut decompressed).now_or_never();
    read?.ok()?;
    Some(decompressed)
}

/// `String::from_utf8`: the text that the bytes encode, if they are valid UTF-8.
#[verifier::external_body]
pub(crate) fn utf8_text(bytes: Vec<u8>) -> (r: Option<String>)
    ensures
        r.deep_view() == if valid_utf8(bytes@) {
            Some(decode_utf8(bytes@))
        } else {
            None
        },
{
    String::from_utf8(bytes).ok()
}

} // verus!
