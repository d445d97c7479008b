use badgers::catalog::IconCatalog;
use badgers::compiler::{comment_lines, IconSetCompiler, SourceFile};
use badgers::icons::{icon_name, icon_stem, IconAsset, IconSet};

fn file(file_name: &str, text: &str) -> SourceFile {
    SourceFile { file_name: file_name.to_string(), text: text.to_string() }
}

fn no_post_processing() -> Option<fn(&str) -> String> {
    None
}

fn set_of(display_name: &str, icons: &[(&str, &str)]) -> IconSet {
    let mut set = IconSet::new(display_name, "test", "");
    for (name, markup) in icons {
        set = set.insert(IconAsset::new(name, markup).compile());
    }
    set
}

#[test]
fn icon_files_end_in_the_icon_extension() {
    assert_eq!(icon_stem("home.svg"), Some("home".to_string()));
    assert_eq!(icon_stem("arrow-up.svg"), Some("arrow-up".to_string()));
    assert_eq!(icon_stem("a.b.svg"), Some("a.b".to_string()));
    assert_eq!(icon_stem("\u{e9}t\u{e9}.svg"), Some("\u{e9}t\u{e9}".to_string()));
}

#[test]
fn other_files_are_no_icons() {
    assert_eq!(icon_stem("home.png"), None);
    assert_eq!(icon_stem("home.SVG"), None);
    assert_eq!(icon_stem("home.svg.bak"), None);
    assert_eq!(icon_stem("homesvg"), None);
    assert_eq!(icon_stem("LICENSE"), None);
    assert_eq!(icon_stem("svg"), None);
    assert_eq!(icon_stem(""), None);
}

#[test]
fn a_file_that_is_all_extension_is_no_icon() {
    assert_eq!(icon_stem(".svg"), None);
}

#[test]
fn icon_names_carry_the_prefix() {
    assert_eq!(icon_name("x", "home"), "x-home");
    assert_eq!(icon_name("feather", "arrow-up"), "feather-arrow-up");
    assert_eq!(icon_name("", ""), "-");
}

#[test]
fn compiling_an_asset_minifies_its_markup() {
    let icon = IconAsset::new("x-home", "<svg>\n  <g/>\n</svg>").compile();
    assert_eq!(icon.name(), "x-home");
    assert_eq!(icon.markup(), "<svg><g/></svg>");
}

#[test]
fn a_new_set_is_empty() {
    let set = IconSet::new("Feather Icons", "feather_icons", "MIT");
    assert_eq!(set.display_name(), "Feather Icons");
    assert_eq!(set.identifier(), "feather_icons");
    assert_eq!(set.attribution(), "MIT");
    assert_eq!(set.len(), 0);
    assert_eq!(set.get("x-home"), None);
    assert!(!set.contains("x-home"));
}

#[test]
fn a_set_finds_what_was_inserted() {
    let set = set_of("One", &[("x-home", "<a> </a>"), ("x-star", "<b/>")]);
    assert_eq!(set.len(), 2);
    assert_eq!(set.get("x-home"), Some("<a></a>"));
    assert_eq!(set.get("x-star"), Some("<b/>"));
    assert_eq!(set.get("x-missing"), None);
    assert!(set.contains("x-home"));
    assert!(!set.contains("X-HOME"));
    assert_eq!(set.name_at(0), "x-home");
    assert_eq!(set.name_at(1), "x-star");
}

#[test]
fn a_later_icon_of_the_same_name_replaces_the_earlier_one() {
    let set = set_of("One", &[("x-home", "<a/>"), ("x-star", "<b/>"), ("x-home", "<c/>")]);
    assert_eq!(set.len(), 2);
    assert_eq!(set.get("x-home"), Some("<c/>"));
    assert_eq!(set.name_at(0), "x-home");
    assert_eq!(set.name_at(1), "x-star");
}

#[test]
fn an_empty_catalog_finds_nothing() {
    let catalog = IconCatalog::new();
    assert_eq!(catalog.len(), 0);
    assert_eq!(catalog.lookup("x-home"), None);
}

#[test]
fn the_set_registered_first_wins() {
    let mut catalog = IconCatalog::new();
    catalog.register(set_of("One", &[("n", "<first/>")]));
    catalog.register(set_of("Two", &[("n", "<second/>"), ("m", "<other/>")]));
    assert_eq!(catalog.len(), 2);
    assert_eq!(catalog.lookup("n"), Some("<first/>"));
    assert_eq!(catalog.lookup("m"), Some("<other/>"));
    assert_eq!(catalog.lookup("k"), None);
    assert_eq!(catalog.set_at(0).display_name(), "One");
    assert_eq!(catalog.set_at(1).display_name(), "Two");
}

#[test]
fn lookup_compares_names_exactly() {
    let catalog = IconCatalog::from_sets(vec![set_of("One", &[("x-home", "<a/>")])]);
    assert_eq!(catalog.lookup("x-home"), Some("<a/>"));
    assert_eq!(catalog.lookup("X-Home"), None);
    assert_eq!(catalog.lookup("x-home "), None);
    assert_eq!(catalog.lookup("x-hom"), None);
}

#[test]
fn compiled_file_is_found_under_prefix_and_stem() {
    let files = vec![file("home.svg", "<svg>\n  <g/>\n</svg>")];
    let catalog = IconSetCompiler::new()
        .compile("Icons", "icons", "x", &files, "MIT", no_post_processing())
        .finalize();
    assert_eq!(catalog.lookup("x-home"), Some("<svg><g/></svg>"));
    assert_eq!(catalog.lookup("x-missing"), None);
    assert_eq!(catalog.lookup("home"), None);
}

#[test]
fn icon_tree_with_one_file() {
    let files = vec![file("home.svg", "<svg>\n  <!-- c -->\n  <path d=\"M0 0\"/>\n</svg>")];
    let catalog = IconSetCompiler::new()
        .compile("Icons", "icons", "ic", &files, "", no_post_processing())
        .finalize();
    assert_eq!(catalog.len(), 1);
    let set = catalog.set_at(0);
    assert_eq!(set.len(), 1);
    assert_eq!(set.name_at(0), "ic-home");
    assert_eq!(set.get("ic-home"), Some("<svg><path d=\"M0 0\"/></svg>"));
}

#[test]
fn compile_passes_over_files_that_are_no_icons() {
    let files = vec![
        file("README.md", "# icons"),
        file("home.svg", "<a/>"),
        file("home.png", "binary"),
        file(".svg", "<b/>"),
    ];
    let catalog = IconSetCompiler::new()
        .compile("Icons", "icons", "x", &files, "", no_post_processing())
        .finalize();
    let set = catalog.set_at(0);
    assert_eq!(set.len(), 1);
    assert_eq!(set.get("x-home"), Some("<a/>"));
    assert_eq!(set.get("x-"), None);
    assert_eq!(set.get("x-README"), None);
}

#[test]
fn compile_post_processes_before_it_minifies() {
    let files = vec![file("star.svg", "<path stroke=\"currentColor\"\n  />")];
    let catalog = IconSetCompiler::new()
        .compile(
            "Feather Icons",
            "feather_icons",
            "feather",
            &files,
            "MIT",
            Some(|svg: &str| svg.replace("currentColor", "#fff")),
        )
        .finalize();
    assert_eq!(catalog.lookup("feather-star"), Some("<path stroke=\"#fff\"/>"));
}

#[test]
fn post_processing_sees_the_raw_text() {
    let files = vec![file("a.svg", "<a>\n</a>")];
    let catalog = IconSetCompiler::new()
        .compile("Icons", "icons", "x", &files, "", Some(|svg: &str| svg.replace("\n", "text")))
        .finalize();
    assert_eq!(catalog.lookup("x-a"), Some("<a>text</a>"));
}

#[test]
fn compile_keeps_the_last_of_two_files_with_one_stem() {
    let files = vec![file("home.svg", "<first/>"), file("home.svg", "<second/>")];
    let catalog = IconSetCompiler::new()
        .compile("Icons", "icons", "x", &files, "", no_post_processing())
        .finalize();
    assert_eq!(catalog.set_at(0).len(), 1);
    assert_eq!(catalog.lookup("x-home"), Some("<second/>"));
}

#[test]
fn compiled_sets_are_registered_in_order() {
    let one = vec![file("home.svg", "<one/>")];
    let two = vec![file("home.svg", "<two/>"), file("star.svg", "<star/>")];
    let three = vec![file("home.svg", "<three/>")];
    let catalog = IconSetCompiler::new()
        .compile("One", "one", "a", &one, "first licence", no_post_processing())
        .compile("Two", "two", "a", &two, "second licence", no_post_processing())
        .compile("Three", "three", "b", &three, "third licence", no_post_processing())
        .finalize();
    assert_eq!(catalog.len(), 3);
    assert_eq!(catalog.lookup("a-home"), Some("<one/>"));
    assert_eq!(catalog.lookup("a-star"), Some("<star/>"));
    assert_eq!(catalog.lookup("b-home"), Some("<three/>"));
    assert_eq!(catalog.set_at(1).display_name(), "Two");
    assert_eq!(catalog.set_at(1).identifier(), "two");
    assert_eq!(catalog.set_at(1).attribution(), "second licence");
}

#[test]
fn compiling_nothing_gives_an_empty_catalog() {
    let catalog = IconSetCompiler::new().finalize();
    assert_eq!(catalog.len(), 0);
    let files: Vec<SourceFile> = Vec::new();
    let catalog = IconSetCompiler::new()
        .compile("Icons", "icons", "x", &files, "", no_post_processing())
        .finalize();
    assert_eq!(catalog.len(), 1);
    assert_eq!(catalog.set_at(0).len(), 0);
}

#[test]
fn every_line_of_a_licence_gets_the_comment_marker() {
    assert_eq!(comment_lines("MIT"), "//! MIT");
    assert_eq!(comment_lines("one\ntwo"), "//! one\n//! two");
    assert_eq!(comment_lines("one\n\ntwo\n"), "//! one\n//! \n//! two\n//! ");
    assert_eq!(comment_lines(""), "//! ");
}
