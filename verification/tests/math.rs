use rcontest::math::{
    extract_math_expressions, glyph, glyph_with, is_system_fallback_font, katex_font_files,
    katex_fonts, katex_fonts_with, katex_gpui_font, strip_math_delimiters, MarkdownEvent, MathState, MathView,
    ParsedMathExpressionContents, SourceEvent,
};

fn formula(contents: &str) -> ParsedMathExpressionContents {
    ParsedMathExpressionContents {
        contents: contents.to_string(),
        display_mode: false,
    }
}

fn names(formulas: &[ParsedMathExpressionContents]) -> Vec<String> {
    formulas.iter().map(|formula| formula.contents.clone()).collect()
}

#[test]
fn delimiters_come_off_in_pairs() {
    assert_eq!(strip_math_delimiters(" $x$ ", false), "x");
    assert_eq!(strip_math_delimiters("$$x$$", true), "x");
    assert_eq!(strip_math_delimiters("$$x$$", false), "$x$");
    assert_eq!(strip_math_delimiters("$x", false), "$x");
    assert_eq!(strip_math_delimiters("$", false), "$");
    assert_eq!(strip_math_delimiters(" $$$ ", true), "$$$");
}

#[test]
fn formulas_come_in_the_order_of_the_document() {
    let source = "é $a$ $$b$$ $ $";
    let event = |start: usize, end: usize, event: MarkdownEvent| SourceEvent { start, end, event };
    let found = extract_math_expressions(
        source,
        &vec![
            event(7, 12, MarkdownEvent::DisplayMath),
            event(0, 100, MarkdownEvent::Other),
            event(3, 6, MarkdownEvent::InlineMath),
            event(13, 16, MarkdownEvent::InlineMath),
        ],
    );
    assert_eq!(found.len(), 2);
    assert_eq!(found[0].start, 3);
    assert_eq!(found[0].end, 6);
    assert_eq!(found[0].contents.contents, "a");
    assert!(!found[0].contents.display_mode);
    assert_eq!(found[1].contents.contents, "b");
    assert!(found[1].contents.display_mode);
}

#[test]
fn formulas_are_placed_by_bytes() {
    let event = |start: usize, end: usize| SourceEvent {
        start,
        end,
        event: MarkdownEvent::InlineMath,
    };
    let found = extract_math_expressions("é$x$😀$α$", &vec![event(2, 5), event(9, 13)]);
    assert_eq!(found.len(), 2);
    assert_eq!(found[0].contents.contents, "x");
    assert_eq!(found[1].contents.contents, "α");
    assert_eq!((found[1].start, found[1].end), (9, 13));
}

#[test]
fn later_formula_at_the_same_place_counts() {
    let event = |end: usize| SourceEvent {
        start: 0,
        end,
        event: MarkdownEvent::InlineMath,
    };
    let found = extract_math_expressions("ab", &vec![event(2), event(1)]);
    assert_eq!(found.len(), 1);
    assert_eq!(found[0].contents.contents, "a");
}

#[test]
fn layouts_are_kept_as_long_as_their_formulas() {
    let mut state = MathState::new();
    assert_eq!(
        names(&state.update(vec![formula("a"), formula("b"), formula("a")])),
        vec!["a", "b"]
    );
    assert!(matches!(
        state.render_math_expression(&formula("a")),
        MathView::Text(text) if text == "$a$"
    ));
    state.set_layout(&formula("a"), Ok(7));
    state.set_layout(&formula("a"), Ok(8));
    state.set_layout(&formula("b"), Err("no such command".to_string()));
    state.set_layout(&formula("z"), Ok(9));
    assert!(matches!(
        state.render_math_expression(&formula("a")),
        MathView::Layout(7)
    ));
    assert!(matches!(
        state.render_math_expression(&formula("b")),
        MathView::Text(text) if text == "$b$"
    ));
    assert!(matches!(
        state.render_math_expression(&formula("z")),
        MathView::Text(text) if text == "$z$"
    ));

    assert_eq!(state.update(vec![formula("a"), formula("b"), formula("a")]).len(), 0);
    assert_eq!(
        names(&state.update(vec![formula("c"), formula("b"), formula("a")])),
        vec!["c"]
    );
    assert_eq!(state.inline.get("c").unwrap().fallback, Some(7));
    assert!(matches!(
        state.render_math_expression(&formula("a")),
        MathView::Layout(7)
    ));
    assert_eq!(names(&state.update(vec![formula("b")])), Vec::<String>::new());
    assert!(!state.inline.contains_key("a"));
    assert_eq!(names(&state.update(vec![formula("a")])), vec!["a"]);
    assert_eq!(state.inline.get("a").unwrap().fallback, None);
    state.clear();
    assert!(state.inline.is_empty());
    assert_eq!(state.order.len(), 0);
}

#[test]
fn display_formulas_have_layouts_of_their_own() {
    let display = ParsedMathExpressionContents {
        contents: "a".to_string(),
        display_mode: true,
    };
    let mut state = MathState::new();
    state.update(vec![formula("a")]);
    state.set_layout(&formula("a"), Ok(1));
    assert!(matches!(
        state.render_math_expression(&display),
        MathView::Text(text) if text == "$$a$$"
    ));
}

#[test]
fn glyphs_come_from_the_fonts_for_formulas() {
    let bold = glyph("Main-Bold", 0x1d400).unwrap();
    assert_eq!(bold.character, 'A');
    let font = bold.font.unwrap();
    assert_eq!(font.family, "KaTeX_Main");
    assert!(font.bold && !font.italic);
    let unknown = glyph("No-Font", 0x1d400).unwrap();
    assert_eq!(unknown.character, '\u{1d400}');
    assert_eq!(unknown.font.unwrap().family, "KaTeX_Main");
    let japanese = glyph("CJK-Regular", 0x3042).unwrap();
    assert_eq!(japanese.character, 'あ');
    assert!(japanese.font.is_none());
    assert!(glyph("CJK-Regular", 0xd800).is_none());
    assert_eq!(glyph_with("Math-Italic", 0xd800, 'x').unwrap().character, 'x');
    assert!(is_system_fallback_font("Emoji-Fallback"));
    assert!(!is_system_fallback_font("Main-Regular"));
}

#[test]
fn fonts_have_families_and_styles() {
    let font = katex_gpui_font("Math-BoldItalic");
    assert_eq!(font.family, "KaTeX_Math");
    assert!(font.bold && font.italic);
    let font = katex_gpui_font("Size3-Regular");
    assert_eq!(font.family, "KaTeX_Size3");
    assert!(!font.bold && !font.italic);
    assert_eq!(katex_font_files().len(), 19);
    assert_eq!(katex_font_files()[5], "KaTeX_Math-BoldItalic.ttf");
}

#[test]
fn fonts_that_exist_are_registered() {
    assert!(katex_fonts_with(vec![None, None]).is_none());
    assert_eq!(
        katex_fonts_with(vec![Some(vec![1]), None, Some(vec![2, 3])]),
        Some(vec![vec![1], vec![2, 3]])
    );
    if let Some(fonts) = katex_fonts() {
        assert!(fonts.len() <= 19);
        assert!(fonts.iter().all(|font| !font.is_empty()));
    }
}
