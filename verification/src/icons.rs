//! Icon sets: compiled icons under unique names.

use crate::minify::{minified, minify_svg};
use crate::text::{append_range, to_chars, to_string};
use vstd::hash_map::StringHashMap;
use vstd::prelude::*;
use vstd::string::*;

verus! {

/// The ending that marks a file as a vector icon.
pub open spec fn icon_extension() -> Seq<char> {
    seq!['.', 's', 'v', 'g']
}

/// Whether a file of this name is a vector icon: something in front of the
/// ending, then the ending. Case matters.
pub open spec fn is_icon_file(file_name: Seq<char>) -> bool {
    file_name.len() > 4 && file_name.subrange(file_name.len() - 4, file_name.len() as int)
        == icon_extension()
}

/// The name of an icon file without its ending.
pub open spec fn stem_of(file_name: Seq<char>) -> Seq<char>
    recommends
        is_icon_file(file_name),
{
    file_name.subrange(0, file_name.len() - 4)
}

/// The name under which an icon is filed: the set's prefix, a hyphen, the
/// file's stem.
pub open spec fn icon_name_of(prefix: Seq<char>, stem: Seq<char>) -> Seq<char> {
    prefix + seq!['-'] + stem
}

/// Whether some text minifies to `markup`.
pub open spec fn is_minified(markup: Seq<char>) -> bool {
    exists|raw: Seq<char>| markup == #[trigger] minified(raw)
}

/// The stem of an icon file's name; `None` for a file that is no icon.
pub fn icon_stem(file_name: &str) -> (r: Option<String>)
    ensures
        match r {
            Some(stem) => is_icon_file(file_name@) && stem@ == stem_of(file_name@),
            None => !is_icon_file(file_name@),
        },
{
    let v = to_chars(file_name);
    let n = v.len();
    if n > 4 && v[n - 4] == '.' && v[n - 3] == 's' && v[n - 2] == 'v' && v[n - 1] == 'g' {
        assert(v@.subrange(n - 4, n as int) =~= icon_extension());
        let mut stem: Vec<char> = Vec::new();
        append_range(&mut stem, &v, 0, n - 4);
        assert(stem@ =~= stem_of(v@));
        Some(to_string(&stem))
    } else {
        if n > 4 {
            let ghost tail = v@.subrange(n - 4, n as int);
            assert(tail[0] == v@[n - 4] && tail[1] == v@[n - 3] && tail[2] == v@[n - 2] && tail[3]
                == v@[n - 1]);
        }
        None
    }
}

/// Puts an icon's name together from the set's prefix and the file's stem.
pub fn icon_name(prefix: &str, stem: &str) -> (r: String)
    ensures
        r@ == icon_name_of(prefix@, stem@),
{
    let mut name = prefix.to_owned();
    name.push('-');
    name.append(stem);
    name
}

/// An icon as it was found: its name and its markup, not yet minified.
pub struct IconAsset {
    pub name: String,
    pub raw_markup: String,
}

/// An icon ready for use: its name and its minified markup.
pub struct CompiledIcon {
    name: String,
    markup: String,
}

impl CompiledIcon {
    #[verifier::type_invariant]
    spec fn well_formed(&self) -> bool {
        is_minified(self.markup@)
    }

    /// The icon's name.
    pub closed spec fn name_view(&self) -> Seq<char> {
        self.name@
    }

    /// The icon's markup.
    pub closed spec fn markup_view(&self) -> Seq<char> {
        self.markup@
    }

    /// The icon's name.
    pub fn name(&self) -> (r: &str)
        ensures
            r@ == self.name_view(),
    {
        self.name.as_str()
    }

    /// The icon's markup, which is the minified form of some text.
    pub fn markup(&self) -> (r: &str)
        ensures
            r@ == self.markup_view(),
            is_minified(r@),
    {
        proof {
            use_type_invariant(self);
        }
        self.markup.as_str()
    }
}

impl IconAsset {
    /// An asset of the given name and markup.
    pub fn new(name: &str, raw_markup: &str) -> (r: Self)
        ensures
            r.name@ == name@,
            r.raw_markup@ == raw_markup@,
    {
        IconAsset { name: name.to_owned(), raw_markup: raw_markup.to_owned() }
    }

    /// Minifies the asset's markup; the name stays.
    pub fn compile(self) -> (r: CompiledIcon)
        ensures
            r.name_view() == self.name@,
            r.markup_view() == minified(self.raw_markup@),
    {
        let markup = minify_svg(self.raw_markup.as_str());
        CompiledIcon { name: self.name, markup }
    }
}

/// Whether `names` lists the keys of `icons`, each once, and every value of
/// `icons` is minified markup.
spec fn consistent(names: Seq<String>, icons: Map<Seq<char>, String>) -> bool {
    &&& forall|i: int| 0 <= i < names.len() ==> icons.contains_key(#[trigger] names[i]@)
    &&& forall|k: Seq<char>| #[trigger]
        icons.contains_key(k) ==> exists|i: int| 0 <= i < names.len() && #[trigger] names[i]@ == k
    &&& forall|i: int, j: int|
        0 <= i < j < names.len() ==> #[trigger] names[i]@ != #[trigger] names[j]@
    &&& forall|k: Seq<char>| #[trigger] icons.contains_key(k) ==> is_minified(icons[k]@)
}

/// What an icon set is, as contracts see it.
pub struct IconSetView {
    pub display_name: Seq<char>,
    pub identifier: Seq<char>,
    pub attribution: Seq<char>,
    pub icons: Map<Seq<char>, Seq<char>>,
}

/// A named collection of compiled icons, each under a name of its own.
pub struct IconSet {
    display_name: String,
    identifier: String,
    attribution: String,
    names: Vec<String>,
    icons: StringHashMap<String>,
}

impl View for IconSet {
    type V = IconSetView;

    closed spec fn view(&self) -> IconSetView {
        IconSetView {
            display_name: self.display_name@,
            identifier: self.identifier@,
            attribution: self.attribution@,
            icons: self.icons@.map_values(|m: String| m@),
        }
    }
}

impl IconSet {
    #[verifier::type_invariant]
    spec fn well_formed(&self) -> bool {
        consistent(self.names@, self.icons@)
    }

    /// The names of the set's icons, in the order in which they first came in.
    pub closed spec fn names(&self) -> Seq<Seq<char>> {
        Seq::new(self.names.len() as nat, |i: int| self.names[i]@)
    }

    /// An empty set.
    pub fn new(display_name: &str, identifier: &str, attribution: &str) -> (r: Self)
        ensures
            r@.display_name == display_name@,
            r@.identifier == identifier@,
            r@.attribution == attribution@,
            r@.icons == Map::<Seq<char>, Seq<char>>::empty(),
            r.names() == Seq::<Seq<char>>::empty(),
    {
        let r = IconSet {
            display_name: display_name.to_owned(),
            identifier: identifier.to_owned(),
            attribution: attribution.to_owned(),
            names: Vec::new(),
            icons: StringHashMap::new(),
        };
        assert(r@.icons =~= Map::<Seq<char>, Seq<char>>::empty());
        assert(r.names() =~= Seq::<Seq<char>>::empty());
        r
    }

    /// Files an icon under its name. An icon that was filed under that name
    /// before is replaced.
    pub fn insert(self, icon: CompiledIcon) -> (r: Self)
        ensures
            r@ == (IconSetView {
                icons: self@.icons.insert(icon.name_view(), icon.markup_view()),
                ..self@
            }),
            r.names() == if self@.icons.contains_key(icon.name_view()) {
                self.names()
            } else {
                self.names().push(icon.name_view())
            },
    {
        proof {
            use_type_invariant(&self);
            use_type_invariant(&icon);
        }
        let IconSet { display_name, identifier, attribution, mut names, mut icons } = self;
        let CompiledIcon { name, markup } = icon;
        if !icons.contains_key(name.as_str()) {
            names.push(name.clone());
        }
        icons.insert(name, markup);
        proof {
            let before = self.names@;
            let fresh = !self.icons@.contains_key(name@);
            assert forall|i: int| 0 <= i < names.len() implies icons@.contains_key(
                #[trigger] names[i]@,
            ) by {
                if i < before.len() {
                    assert(self.icons@.contains_key(before[i]@));
                }
            }
            assert forall|k: Seq<char>| #[trigger] icons@.contains_key(k) implies exists|i: int|
                0 <= i < names.len() && #[trigger] names[i]@ == k by {
                if self.icons@.contains_key(k) {
                    let i = choose|i: int| 0 <= i < before.len() && #[trigger] before[i]@ == k;
                    assert(names[i]@ == k);
                } else {
                    assert(names[names.len() - 1]@ == k);
                }
            }
            assert forall|i: int, j: int| 0 <= i < j < names.len() implies #[trigger] names[i]@
                != #[trigger] names[j]@ by {
                if j >= before.len() {
                    assert(self.icons@.contains_key(before[i]@));
                }
            }
            assert forall|k: Seq<char>| #[trigger] icons@.contains_key(k) implies is_minified(
                icons@[k]@,
            ) by {
                if k != name@ {
                    assert(self.icons@.contains_key(k));
                }
            }
        }
        let r = IconSet { display_name, identifier, attribution, names, icons };
        proof {
            assert(r@.icons =~= self@.icons.insert(name@, markup@));
            if self@.icons.contains_key(name@) {
                assert(r.names() =~= self.names());
            } else {
                assert(r.names() =~= self.names().push(name@));
            }
        }
        r
    }

    /// The markup filed under `name`, if there is any. Names are compared
    /// character by character.
    pub fn get(&self, name: &str) -> (r: Option<&str>)
        ensures
            match r {
                Some(markup) => self@.icons.contains_key(name@) && markup@ == self@.icons[name@]
                    && is_minified(markup@),
                None => !self@.icons.contains_key(name@),
            },
    {
        proof {
            use_type_invariant(self);
        }
        match self.icons.get(name) {
            Some(markup) => Some(markup.as_str()),
            None => None,
        }
    }

    /// Whether an icon is filed under `name`.
    pub fn contains(&self, name: &str) -> (r: bool)
        ensures
            r == self@.icons.contains_key(name@),
    {
        self.icons.contains_key(name)
    }

    /// The number of icons in the set. The names list every icon once.
    pub fn len(&self) -> (r: usize)
        ensures
            r == self.names().len(),
            self.names().no_duplicates(),
            self.names().to_set() == self@.icons.dom(),
    {
        proof {
            use_type_invariant(self);
            let names = self.names();
            assert forall|k: Seq<char>| names.to_set().contains(k) == self@.icons.dom().contains(
                k,
            ) by {
                if names.to_set().contains(k) {
                    let i = choose|i: int| 0 <= i < names.len() && names[i] == k;
                    assert(self.icons@.contains_key(self.names@[i]@));
                }
                if self.icons@.contains_key(k) {
                    let i = choose|i: int|
                        0 <= i < self.names@.len() && #[trigger] self.names@[i]@ == k;
                    assert(names[i] == k);
                }
            }
            assert(names.to_set() =~= self@.icons.dom());
        }
        self.names.len()
    }

    /// The name of the icon that came in as number `i`, counting from zero
    /// and leaving out every name that was there before.
    pub fn name_at(&self, i: usize) -> (r: &str)
        requires
            i < self.names().len(),
        ensures
            r@ == self.names()[i as int],
            self@.icons.contains_key(r@),
    {
        proof {
            use_type_invariant(self);
            assert(self.icons@.contains_key(self.names@[i as int]@));
        }
        self.names[i].as_str()
    }

    /// The set's name as people read it.
    pub fn display_name(&self) -> (r: &str)
        ensures
            r@ == self@.display_name,
    {
        self.display_name.as_str()
    }

    /// The set's name as programs write it.
    pub fn identifier(&self) -> (r: &str)
        ensures
            r@ == self@.identifier,
    {
        self.identifier.as_str()
    }

    /// The licence text that goes with the set's icons.
    pub fn attribution(&self) -> (r: &str)
        ensures
            r@ == self@.attribution,
    {
        self.attribution.as_str()
    }
}

} // verus!
