use badgers::minify::{close_gaps, join_lines, minify_svg, strip_comments, tighten_closers};
use regex::Regex;

fn pattern_chars(s: &str) -> Vec<char> {
    s.chars().collect()
}

fn pattern_text(v: Vec<char>) -> String {
    v.into_iter().collect()
}

/// A small generator of pseudo-random numbers, the same on every run.
struct Dice {
    state: u64,
}

impl Dice {
    fn roll(&mut self, sides: usize) -> usize {
        self.state = self
            .state
            .wrapping_mul(6364136223846793005)
            .wrapping_add(1442695040888963407);
        ((self.state >> 33) as usize) % sides
    }

    fn markup(&mut self) -> String {
        let pieces = [
            "<", ">", "/", "!", "-", "--", "<!--", "-->", " ", "  ", "\t", "\n", "\r\n", "\r",
            "a", "b=\"c\"", "/>", "\u{a0}", "\u{2003}",
        ];
        let len = self.roll(14);
        let mut s = String::new();
        for _ in 0..len {
            s.push_str(pieces[self.roll(pieces.len())]);
        }
        s
    }
}

#[test]
fn join_lines_is_a_replacement_of_line_breaks() {
    let breaks = Regex::new(r"\r?\n").unwrap();
    let mut dice = Dice { state: 1 };
    for _ in 0..20000 {
        let s = dice.markup();
        let ours = pattern_text(join_lines(&pattern_chars(&s)));
        assert_eq!(ours, breaks.replace_all(&s, " "), "{s:?}");
    }
}

#[test]
fn strip_comments_is_a_replacement_of_shortest_comments() {
    let comments = Regex::new(r"(?s)<!--.*?-->").unwrap();
    let mut dice = Dice { state: 2 };
    for _ in 0..20000 {
        let s = dice.markup();
        let ours = pattern_text(strip_comments(&pattern_chars(&s)));
        assert_eq!(ours, comments.replace_all(&s, ""), "{s:?}");
    }
}

#[test]
fn close_gaps_is_a_replacement_between_brackets() {
    let gaps = Regex::new(r"(>)(\s+)(<)").unwrap();
    let mut dice = Dice { state: 3 };
    for _ in 0..20000 {
        let s = dice.markup();
        let ours = pattern_text(close_gaps(&pattern_chars(&s)));
        assert_eq!(ours, gaps.replace_all(&s, "$1$3"), "{s:?}");
    }
}

#[test]
fn tighten_closers_is_a_replacement_before_closers() {
    let closers = Regex::new(r"(\s+)(/?>)").unwrap();
    let mut dice = Dice { state: 4 };
    for _ in 0..20000 {
        let s = dice.markup();
        let ours = pattern_text(tighten_closers(&pattern_chars(&s)));
        assert_eq!(ours, closers.replace_all(&s, "$2"), "{s:?}");
    }
}

#[test]
fn minify_agrees_with_patterns_where_no_line_is_blank() {
    let edges = Regex::new(r"(?m)^\s+|\s+$").unwrap();
    let breaks = Regex::new(r"\r?\n").unwrap();
    let comments = Regex::new(r"(?s)<!--.*?-->").unwrap();
    let gaps = Regex::new(r"(>)(\s+)(<)").unwrap();
    let closers = Regex::new(r"(\s+)(/?>)").unwrap();
    let blank_line = Regex::new(r"\n[^\S\n]*\n").unwrap();
    let mut dice = Dice { state: 5 };
    let mut compared = 0;
    for _ in 0..40000 {
        let s = dice.markup();
        if blank_line.is_match(s.trim()) {
            continue;
        }
        let t = edges.replace_all(&s, "");
        let t = breaks.replace_all(&t, " ");
        let t = comments.replace_all(&t, "");
        let t = gaps.replace_all(&t, "$1$3");
        let t = closers.replace_all(&t, "$2");
        assert_eq!(minify_svg(&s), t.trim(), "{s:?}");
        compared += 1;
    }
    assert!(compared > 20000);
}
