use badgers::minify::{
    close_gaps, join_lines, minify_chars, minify_svg, strip_comments, strip_lines, tighten_closers,
};
use badgers::text::{is_whitespace, to_chars, to_string, trim_chars};

fn chars(s: &str) -> Vec<char> {
    s.chars().collect()
}

fn text(v: Vec<char>) -> String {
    v.into_iter().collect()
}

#[test]
fn empty_input_gives_empty_output() {
    assert_eq!(minify_svg(""), "");
}

#[test]
fn white_space_only_gives_empty_output() {
    assert_eq!(minify_svg(" \n\t \r\n  "), "");
}

#[test]
fn white_space_between_tags_is_removed() {
    assert_eq!(minify_svg("<a>   </a>"), "<a></a>");
}

#[test]
fn line_breaks_between_tags_are_removed() {
    assert_eq!(minify_svg("<a>\n\n  <b>\n  </b>\n</a>"), "<a><b></b></a>");
}

#[test]
fn comment_on_one_line_is_removed() {
    assert_eq!(minify_svg("<a><!-- note --></a>"), "<a></a>");
}

#[test]
fn comment_over_several_lines_is_removed() {
    let input = "<svg>\n<!-- first\n   second\nthird -->\n<g/>\n</svg>";
    assert_eq!(minify_svg(input), "<svg><g/></svg>");
}

#[test]
fn comment_removal_lets_white_space_collapse() {
    assert_eq!(minify_svg("<a> <!-- x --> </a>"), "<a></a>");
    assert_eq!(minify_svg("<a>\n  <!--\n  x\n  -->\n</a>"), "<a></a>");
}

#[test]
fn comment_between_words_leaves_both_spaces() {
    assert_eq!(minify_svg("one <!-- x --> two"), "one  two");
}

#[test]
fn two_comments_are_both_removed() {
    assert_eq!(minify_svg("<a><!--1--><b/><!--2--></a>"), "<a><b/></a>");
}

#[test]
fn comment_ends_at_the_nearest_closing() {
    assert_eq!(minify_svg("<!-- a --> b -->"), "b -->");
}

#[test]
fn shortest_comment_needs_seven_characters() {
    assert_eq!(minify_svg("<!---->"), "");
    assert_eq!(minify_svg("<!--->"), "<!--->");
    assert_eq!(minify_svg("<!-->"), "<!-->");
}

#[test]
fn unclosed_comment_stays() {
    assert_eq!(minify_svg("<a><!-- never closed</a>"), "<a><!-- never closed</a>");
}

#[test]
fn icon_with_comment_and_indentation() {
    let input = "<svg>\n  <!-- c -->\n  <path d=\"M0 0\"/>\n</svg>";
    assert_eq!(minify_svg(input), "<svg><path d=\"M0 0\"/></svg>");
}

#[test]
fn windows_line_breaks_are_joined() {
    assert_eq!(minify_svg("<a>\r\n  <b/>\r\n</a>"), "<a><b/></a>");
    assert_eq!(minify_svg("one\r\ntwo"), "one two");
}

#[test]
fn lines_of_text_are_joined_by_one_space() {
    assert_eq!(minify_svg("one  \n   two"), "one two");
    assert_eq!(minify_svg("<t>one\n  two</t>"), "<t>one two</t>");
}

#[test]
fn empty_line_between_text_gives_two_spaces() {
    assert_eq!(minify_svg("one\n\ntwo"), "one  two");
}

#[test]
fn white_space_inside_a_line_stays() {
    assert_eq!(minify_svg("<t>a   b</t>"), "<t>a   b</t>");
    assert_eq!(minify_svg("<a b=\"1\"   c=\"2\">"), "<a b=\"1\"   c=\"2\">");
}

#[test]
fn white_space_before_closing_delimiters_is_removed() {
    assert_eq!(minify_svg("<a b=\"1\"  >"), "<a b=\"1\">");
    assert_eq!(minify_svg("<path d=\"x\"  />"), "<path d=\"x\"/>");
    assert_eq!(minify_svg("<a\n  b=\"1\"\n/>"), "<a b=\"1\"/>");
}

#[test]
fn white_space_after_opening_stays() {
    assert_eq!(minify_svg("< a>"), "< a>");
    assert_eq!(minify_svg("<a> text"), "<a> text");
}

#[test]
fn ends_are_trimmed() {
    assert_eq!(minify_svg("  \n <a/> \n "), "<a/>");
    assert_eq!(minify_svg("\u{a0}x\u{3000}"), "x");
}

#[test]
fn minifying_twice_changes_nothing_more() {
    let inputs = [
        "",
        "<a>   </a>",
        "<svg>\n  <!-- c -->\n  <path d=\"M0 0\"/>\n</svg>",
        "one\n\ntwo",
        "<a b=\"1\"  >\r\n text <!-- x\n y --> more\r\n</a  >",
        "<!-- never closed",
        ">  >  <  <",
    ];
    for input in inputs {
        let once = minify_svg(input);
        assert_eq!(minify_svg(&once), once);
    }
}

#[test]
fn second_pass_removes_a_comment_that_the_first_one_made() {
    let once = minify_svg("<!-<!-- x -->- y -->");
    assert_eq!(once, "<!-- y -->");
    assert_eq!(minify_svg(&once), "");
    let once = minify_svg("<!-- x -- >");
    assert_eq!(once, "<!-- x -->");
    assert_eq!(minify_svg(&once), "");
}

#[test]
fn second_pass_removes_white_space_that_the_first_one_uncovered() {
    let once = minify_svg("a / >");
    assert_eq!(once, "a />");
    assert_eq!(minify_svg(&once), "a/>");
}

#[test]
fn steps_one_by_one() {
    let input = chars(" <a> \r\n\t<!-- c\n d --> <b  /> \n </a  > ");
    let lines = strip_lines(&input);
    assert_eq!(text(lines.clone()), "<a>\n<!-- c\nd --> <b  />\n</a  >");
    let joined = join_lines(&lines);
    assert_eq!(text(joined.clone()), "<a> <!-- c d --> <b  /> </a  >");
    let bare = strip_comments(&joined);
    assert_eq!(text(bare.clone()), "<a>  <b  /> </a  >");
    let packed = close_gaps(&bare);
    assert_eq!(text(packed.clone()), "<a><b  /></a  >");
    let tight = tighten_closers(&packed);
    assert_eq!(text(tight.clone()), "<a><b/></a>");
    assert_eq!(text(trim_chars(&tight)), "<a><b/></a>");
    assert_eq!(text(minify_chars(&input)), "<a><b/></a>");
}

#[test]
fn minified_markup_is_one_trimmed_line_without_gaps() {
    let inputs = [
        " <a>\n <b> text </b> \r\n </a> \n",
        "\n\n one \n two \n\n",
        "<a> <b> <c> </c> </b> </a>",
        ">\n<",
    ];
    for input in inputs {
        let out = minify_svg(input);
        assert!(!out.contains('\n'));
        assert_eq!(out.trim(), out);
        assert!(!out.contains("> <"));
    }
    assert_eq!(minify_svg(inputs[0]), "<a><b> text </b></a>");
    assert_eq!(minify_svg(inputs[1]), "one two");
    assert_eq!(minify_svg(inputs[2]), "<a><b><c></c></b></a>");
    assert_eq!(minify_svg(inputs[3]), "><");
}

#[test]
fn a_comment_goes_whole_and_the_rest_is_searched_alone() {
    let before = "<a>text";
    let inside = " one\n two -- > <!-- three ";
    let after = "<b/><!-- x --></a>";
    let all = format!("{before}<!--{inside}-->{after}");
    let expected = format!("{before}{}", text(strip_comments(&chars(after))));
    assert_eq!(text(strip_comments(&chars(&all))), expected);
    assert_eq!(expected, "<a>text<b/></a>");
}

#[test]
fn a_gap_goes_whole_and_both_sides_come_out_as_if_alone() {
    let left = "<a> <b";
    let right = "c> <d>";
    let all = format!("{left}> \n\t <{right}");
    let expected = format!(
        "{}{}",
        text(close_gaps(&chars(&format!("{left}>")))),
        text(close_gaps(&chars(&format!("<{right}"))))
    );
    assert_eq!(text(close_gaps(&chars(&all))), expected);
    assert_eq!(expected, "<a><b><c><d>");
}

#[test]
fn strip_lines_keeps_the_line_feeds() {
    assert_eq!(text(strip_lines(&chars("  a  \n\n  b\t\n"))), "a\n\nb\n");
    assert_eq!(text(strip_lines(&chars("\n"))), "\n");
    assert_eq!(text(strip_lines(&chars("a \r\n b"))), "a\nb");
}

#[test]
fn join_lines_takes_a_carriage_return_with_its_line_feed() {
    assert_eq!(text(join_lines(&chars("a\r\nb\nc\rd\r"))), "a b c\rd\r");
    assert_eq!(text(join_lines(&chars("\r\r\n"))), "\r ");
}

#[test]
fn close_gaps_needs_both_brackets() {
    assert_eq!(text(close_gaps(&chars("> <"))), "><");
    assert_eq!(text(close_gaps(&chars(">  a  <"))), ">  a  <");
    assert_eq!(text(close_gaps(&chars("< >"))), "< >");
    assert_eq!(text(close_gaps(&chars("> > <"))), "> ><");
    assert_eq!(text(close_gaps(&chars(">  "))), ">  ");
}

#[test]
fn tighten_closers_looks_at_what_follows_the_run() {
    assert_eq!(text(tighten_closers(&chars("a  >"))), "a>");
    assert_eq!(text(tighten_closers(&chars("a  />"))), "a/>");
    assert_eq!(text(tighten_closers(&chars("a  / >"))), "a  />");
    assert_eq!(text(tighten_closers(&chars("a  /"))), "a  /");
    assert_eq!(text(tighten_closers(&chars("a  "))), "a  ");
}

#[test]
fn white_space_is_what_the_standard_library_calls_so() {
    let mut n: u32 = 0;
    while n <= 0x10FFFF {
        if let Some(c) = char::from_u32(n) {
            assert_eq!(is_whitespace(c), c.is_whitespace());
        }
        n += 1;
    }
}

#[test]
fn characters_and_strings_convert_both_ways() {
    let s = "a\u{e9}\u{4e16}\u{1f600}>";
    let v = to_chars(s);
    assert_eq!(v, chars(s));
    assert_eq!(to_string(&v), s);
    assert_eq!(to_string(&Vec::new()), "");
    assert_eq!(to_string(&vec!['x', 'y']), "xy");
}

#[test]
fn trim_chars_takes_white_space_from_both_ends() {
    assert_eq!(text(trim_chars(&chars("  a b  "))), "a b");
    assert_eq!(text(trim_chars(&chars("   "))), "");
    assert_eq!(text(trim_chars(&chars("a"))), "a");
}
