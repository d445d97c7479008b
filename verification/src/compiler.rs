//! The icon registry compiler: from the files of an icon directory to an
//! icon set, and from the sets to the catalog.

use crate::catalog::{
    found_in, lemma_first_registered_wins, lemma_missing_is_not_found, IconCatalog,
};
use crate::icons::{
    icon_name, icon_name_of, icon_stem, is_icon_file, stem_of, IconAsset, IconSet, IconSetView,
};
use crate::minify::minified;
use crate::text::{lemma_push_then_append, to_chars, to_string};
use vstd::prelude::*;
use vstd::string::*;

verus! {

/// A file as it was found under an icon directory: the last part of its
/// path and what it holds.
pub struct SourceFile {
    pub file_name: String,
    pub text: String,
}

/// Whether `out` is what post-processing makes of `raw`: a result of the
/// function where there is one, `raw` itself where there is none.
pub open spec fn post_processed<F: Fn(&str) -> String>(
    post_process: Option<F>,
    raw: Seq<char>,
    out: Seq<char>,
) -> bool {
    match post_process {
        Some(f) => exists|t: &str, p: String|
            t@ == raw && p@ == out && #[trigger] call_ensures(f, (t,), p),
        None => out == raw,
    }
}

/// The icons that the first `n` of `files` give, `texts` being their
/// post-processed contents: every icon file is minified and filed under the
/// prefix, a hyphen and its stem; a later file replaces an earlier one of
/// the same name; other files are passed over.
pub open spec fn compiled_icons(
    prefix: Seq<char>,
    files: Seq<SourceFile>,
    texts: Seq<Seq<char>>,
    n: int,
) -> Map<Seq<char>, Seq<char>>
    decreases n,
{
    if n <= 0 {
        Map::empty()
    } else {
        let before = compiled_icons(prefix, files, texts, n - 1);
        let file_name = files[n - 1].file_name@;
        if is_icon_file(file_name) {
            before.insert(icon_name_of(prefix, stem_of(file_name)), minified(texts[n - 1]))
        } else {
            before
        }
    }
}

/// What the first `n` files give depends on the first `n` texts only.
pub proof fn lemma_compiled_icons_prefix(
    prefix: Seq<char>,
    files: Seq<SourceFile>,
    a: Seq<Seq<char>>,
    b: Seq<Seq<char>>,
    n: int,
)
    requires
        forall|j: int| 0 <= j < n ==> a[j] == b[j],
    ensures
        compiled_icons(prefix, files, a, n) == compiled_icons(prefix, files, b, n),
    decreases n,
{
    if n > 0 {
        lemma_compiled_icons_prefix(prefix, files, a, b, n - 1);
    }
}

/// The name that a file's icon is filed under.
pub open spec fn filed_as(prefix: Seq<char>, file: SourceFile) -> Seq<char> {
    icon_name_of(prefix, stem_of(file.file_name@))
}

/// Under one prefix, icon files of different names are filed under
/// different names.
pub proof fn lemma_filed_as_differs(prefix: Seq<char>, f: SourceFile, g: SourceFile)
    requires
        is_icon_file(f.file_name@),
        is_icon_file(g.file_name@),
        f.file_name@ != g.file_name@,
    ensures
        filed_as(prefix, f) != filed_as(prefix, g),
{
    let x = f.file_name@;
    let y = g.file_name@;
    if filed_as(prefix, f) == filed_as(prefix, g) {
        let p = prefix.len() as int + 1;
        assert(stem_of(x) =~= filed_as(prefix, f).skip(p));
        assert(stem_of(y) =~= filed_as(prefix, g).skip(p));
        assert(x =~= stem_of(x) + x.subrange(x.len() - 4, x.len() as int));
        assert(y =~= stem_of(y) + y.subrange(y.len() - 4, y.len() as int));
    }
}

/// An icon file's minified text is filed under the prefix, a hyphen and the
/// file's stem, unless a later file has the same name.
pub proof fn lemma_compiled_icon_is_filed(
    prefix: Seq<char>,
    files: Seq<SourceFile>,
    texts: Seq<Seq<char>>,
    n: int,
    i: int,
)
    requires
        0 <= i < n <= files.len(),
        is_icon_file(files[i].file_name@),
        forall|j: int| i < j < n ==> (#[trigger] files[j]).file_name@ != files[i].file_name@,
    ensures
        compiled_icons(prefix, files, texts, n).contains_key(filed_as(prefix, files[i])),
        compiled_icons(prefix, files, texts, n)[filed_as(prefix, files[i])] == minified(texts[i]),
    decreases n,
{
    if i < n - 1 {
        lemma_compiled_icon_is_filed(prefix, files, texts, n - 1, i);
        if is_icon_file(files[n - 1].file_name@) {
            lemma_filed_as_differs(prefix, files[n - 1], files[i]);
        }
    }
}

/// Something is filed under a name exactly if an icon file gives that name.
pub proof fn lemma_compiled_names(
    prefix: Seq<char>,
    files: Seq<SourceFile>,
    texts: Seq<Seq<char>>,
    n: int,
    name: Seq<char>,
)
    requires
        0 <= n <= files.len(),
    ensures
        compiled_icons(prefix, files, texts, n).contains_key(name) <==> exists|i: int|
            0 <= i < n && is_icon_file(files[i].file_name@) && #[trigger] filed_as(
                prefix,
                files[i],
            ) == name,
    decreases n,
{
    if n > 0 {
        lemma_compiled_names(prefix, files, texts, n - 1, name);
        let last = files[n - 1];
        if compiled_icons(prefix, files, texts, n).contains_key(name) {
            if is_icon_file(last.file_name@) && filed_as(prefix, last) == name {
            } else {
                let i = choose|i: int|
                    0 <= i < n - 1 && is_icon_file(files[i].file_name@) && #[trigger] filed_as(
                        prefix,
                        files[i],
                    ) == name;
                assert(0 <= i < n);
            }
        }
    }
}

/// A catalog that holds one compiled set finds an icon file's minified text
/// under the prefix, a hyphen and the file's stem, and finds nothing under
/// a name that no icon file gives.
pub proof fn lemma_compiled_file_is_found(
    set: IconSetView,
    prefix: Seq<char>,
    files: Seq<SourceFile>,
    texts: Seq<Seq<char>>,
    i: int,
    missing: Seq<char>,
)
    requires
        set.icons == compiled_icons(prefix, files, texts, files.len() as int),
        0 <= i < files.len(),
        is_icon_file(files[i].file_name@),
        forall|j: int|
            i < j < files.len() ==> (#[trigger] files[j]).file_name@ != files[i].file_name@,
        forall|j: int|
            0 <= j < files.len() && is_icon_file(files[j].file_name@) ==> #[trigger] filed_as(
                prefix,
                files[j],
            ) != missing,
    ensures
        found_in(seq![set], filed_as(prefix, files[i])) == Some(minified(texts[i])),
        found_in(seq![set], missing) is None,
{
    let n = files.len() as int;
    lemma_compiled_icon_is_filed(prefix, files, texts, n, i);
    lemma_compiled_names(prefix, files, texts, n, missing);
    lemma_first_registered_wins(seq![set], filed_as(prefix, files[i]), 0);
    lemma_missing_is_not_found(seq![set], missing);
}

/// The four characters that start a line of a documentation comment.
pub open spec fn comment_marker() -> Seq<char> {
    seq!['/', '/', '!', ' ']
}

/// The text from index `i` on, with the comment marker behind every line
/// feed.
pub open spec fn commented_from(s: Seq<char>, i: int) -> Seq<char>
    decreases s.len() - i,
{
    if i < 0 || i >= s.len() {
        Seq::empty()
    } else if s[i] == '\n' {
        seq!['\n'] + comment_marker() + commented_from(s, i + 1)
    } else {
        seq![s[i]] + commented_from(s, i + 1)
    }
}

/// The text with the comment marker in front of every line.
pub open spec fn commented(s: Seq<char>) -> Seq<char> {
    comment_marker() + commented_from(s, 0)
}

/// Puts the comment marker in front of every line of `text`, so that a
/// licence can stand word for word at the head of a source file.
pub fn comment_lines(text: &str) -> (r: String)
    ensures
        r@ == commented(text@),
{
    let v = to_chars(text);
    let mut out: Vec<char> = Vec::new();
    out.push('/');
    out.push('/');
    out.push('!');
    out.push(' ');
    assert(out@ =~= comment_marker());
    let mut i: usize = 0;
    while i < v.len()
        invariant
            i <= v.len(),
            out@ + commented_from(v@, i as int) == commented(v@),
        decreases v.len() - i,
    {
        let c = v[i];
        let ghost before = out@;
        let ghost rest = commented_from(v@, i + 1);
        out.push(c);
        if c == '\n' {
            out.push('/');
            out.push('/');
            out.push('!');
            out.push(' ');
            assert(out@ + rest =~= before + (seq!['\n'] + comment_marker() + rest));
        } else {
            proof {
                lemma_push_then_append(before, c, rest);
            }
        }
        i += 1;
    }
    assert(out@ + commented_from(v@, i as int) =~= out@);
    to_string(&out)
}

/// Compiles icon sets one after the other and hands them over as a catalog.
pub struct IconSetCompiler {
    icon_sets: Vec<IconSet>,
}

impl View for IconSetCompiler {
    type V = Seq<IconSetView>;

    closed spec fn view(&self) -> Seq<IconSetView> {
        Seq::new(self.icon_sets.len() as nat, |i: int| self.icon_sets[i]@)
    }
}

impl IconSetCompiler {
    /// A compiler that has compiled nothing yet.
    pub fn new() -> (r: Self)
        ensures
            r@ == Seq::<IconSetView>::empty(),
    {
        let r = IconSetCompiler { icon_sets: Vec::new() };
        assert(r@ =~= Seq::<IconSetView>::empty());
        r
    }

    /// Compiles one icon set from the files found under its directory and
    /// puts it behind the sets compiled before.
    ///
    /// Every file whose name marks it as an icon is post-processed, where a
    /// function for that is given, then minified, and filed under the
    /// prefix, a hyphen and the file's stem. The licence text goes along
    /// with the set as it is.
    pub fn compile<F: Fn(&str) -> String>(
        self,
        name: &str,
        module: &str,
        prefix: &str,
        files: &Vec<SourceFile>,
        license: &str,
        post_process: Option<F>,
    ) -> (r: Self)
        requires
            post_process matches Some(f) ==> forall|i: int, t: &str|
                0 <= i < files.len() && is_icon_file(#[trigger] files[i].file_name@) && t@
                    == files[i].text@ ==> #[trigger] call_requires(f, (t,)),
        ensures
            exists|texts: Seq<Seq<char>>|
                {
                    &&& texts.len() == files.len()
                    &&& forall|i: int|
                        0 <= i < files.len() && is_icon_file(#[trigger] files[i].file_name@)
                            ==> post_processed(post_process, files[i].text@, texts[i])
                    &&& r@ == self@.push(
                        IconSetView {
                            display_name: name@,
                            identifier: module@,
                            attribution: license@,
                            icons: #[trigger] compiled_icons(
                                prefix@,
                                files@,
                                texts,
                                files.len() as int,
                            ),
                        },
                    )
                },
    {
        let mut set = IconSet::new(name, module, license);
        let ghost mut texts: Seq<Seq<char>> = Seq::empty();
        let mut i: usize = 0;
        while i < files.len()
            invariant
                i <= files.len(),
                texts.len() == i,
                post_process matches Some(f) ==> forall|k: int, t: &str|
                    0 <= k < files.len() && is_icon_file(#[trigger] files[k].file_name@) && t@
                        == files[k].text@ ==> #[trigger] call_requires(f, (t,)),
                forall|j: int|
                    0 <= j < i && is_icon_file(#[trigger] files[j].file_name@) ==> post_processed(
                        post_process,
                        files[j].text@,
                        texts[j],
                    ),
                set@ == (IconSetView {
                    display_name: name@,
                    identifier: module@,
                    attribution: license@,
                    icons: compiled_icons(prefix@, files@, texts, i as int),
                }),
            decreases files.len() - i,
        {
            let file = &files[i];
            let ghost before = texts;
            match icon_stem(file.file_name.as_str()) {
                Some(stem) => {
                    let text = match &post_process {
                        Some(f) => f(file.text.as_str()),
                        None => file.text.clone(),
                    };
                    proof {
                        texts = texts.push(text@);
                    }
                    let asset = IconAsset {
                        name: icon_name(prefix, stem.as_str()),
                        raw_markup: text,
                    };
                    set = set.insert(asset.compile());
                },
                None => {
                    proof {
                        texts = texts.push(Seq::empty());
                    }
                },
            }
            proof {
                lemma_compiled_icons_prefix(prefix@, files@, before, texts, i as int);
            }
            i += 1;
        }
        let IconSetCompiler { mut icon_sets } = self;
        icon_sets.push(set);
        let r = IconSetCompiler { icon_sets };
        assert(r@ =~= self@.push(set@));
        r
    }

    /// Hands the compiled sets over as a catalog, in the order of their
    /// compilation.
    pub fn finalize(self) -> (r: IconCatalog)
        ensures
            r@ == self@,
    {
        let catalog = IconCatalog::from_sets(self.icon_sets);
        assert(catalog@ =~= self@);
        catalog
    }
}

} // verus!
