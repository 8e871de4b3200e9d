//! Resolution of a query to a documentation page: the naming convention of
//! rustdoc's files, and the search that maps a query path onto it.
use vstd::prelude::*;
use crate::query::query_parts;
use crate::text::{
    copy_range, join, join_strings, lemma_join_split, lemma_split_concat, lemma_split_plain,
    same_text, split_on, split_string,
};

verus! {

/// A path as the sequence of its components; an absolute path starts with an
/// empty component, so that joining the components with `/` writes it out.
#[derive(Debug)]
pub struct DocPath {
    pub parts: Vec<String>,
}

impl View for DocPath {
    type V = Seq<Seq<char>>;

    open spec fn view(&self) -> Seq<Seq<char>> {
        self.parts.deep_view()
    }
}

impl DocPath {
    /// A path with the given components.
    pub fn new(parts: Vec<String>) -> (r: DocPath)
        ensures
            r@ == parts.deep_view(),
    {
        DocPath { parts }
    }

    /// A copy of this path.
    pub fn copy(&self) -> (r: DocPath)
        ensures
            r@ == self@,
    {
        DocPath { parts: copy_range(&self.parts, 0, self.parts.len()) }
    }

    /// Appends one component.
    pub fn push(&mut self, part: String)
        ensures
            final(self)@ == old(self)@.push(part@),
    {
        let ghost before = self@;
        self.parts.push(part);
        assert(self@ =~= before.push(part@));
    }

    /// Appends each of the given components in turn.
    pub fn extend(&mut self, more: &Vec<String>)
        ensures
            final(self)@ == old(self)@ + more.deep_view(),
    {
        let ghost start = self@;
        let mut i: usize = 0;
        while i < more.len()
            invariant
                i <= more.len(),
                self@ == start + more.deep_view().take(i as int),
            decreases more.len() - i,
        {
            self.push(more[i].clone());
            assert(self@ =~= start + more.deep_view().take(i as int + 1));
            i += 1;
        }
        assert(more.deep_view().take(more.len() as int) =~= more.deep_view());
    }

    /// The last component, if there is one.
    pub fn file_name(&self) -> (r: Option<String>)
        ensures
            r.deep_view() == (if self@.len() > 0 {
                Some(self@.last())
            } else {
                None
            }),
    {
        if self.parts.len() > 0 {
            Some(self.parts[self.parts.len() - 1].clone())
        } else {
            None
        }
    }

    /// The path written out, its components separated by `/`.
    pub fn as_string(&self) -> (r: String)
        ensures
            r@ == join(self@, "/"@),
    {
        join_strings(&self.parts, "/")
    }
}

/// The kind of item that a documentation page describes.
#[derive(PartialEq, Eq, Structural, Clone, Copy, Debug)]
pub enum Tag {
    Constant,
    Enum,
    Function,
    Macro,
    Module,
    Primitive,
    Struct,
    Trait,
    Method,
    Unknown,
}

/// The word that starts the file name of a page of kind `t` (`<word>.<name>.html`);
/// empty for the kinds that have no such word.
pub open spec fn keyword(t: Tag) -> Seq<char> {
    match t {
        Tag::Constant => "constant"@,
        Tag::Enum => "enum"@,
        Tag::Function => "fn"@,
        Tag::Macro => "macro"@,
        Tag::Primitive => "primitive"@,
        Tag::Struct => "struct"@,
        Tag::Trait => "trait"@,
        _ => Seq::empty(),
    }
}

/// Whether pages of kind `t` are named `<word>.<name>.html`.
pub open spec fn is_prefixed(t: Tag) -> bool {
    !(t is Module || t is Unknown || t is Method)
}

/// The kind that the first word of a file name stands for.
pub open spec fn kind_of_word(w: Seq<char>) -> Tag {
    if w == "constant"@ {
        Tag::Constant
    } else if w == "enum"@ {
        Tag::Enum
    } else if w == "fn"@ {
        Tag::Function
    } else if w == "macro"@ {
        Tag::Macro
    } else if w == "primitive"@ {
        Tag::Primitive
    } else if w == "struct"@ {
        Tag::Struct
    } else if w == "trait"@ {
        Tag::Trait
    } else {
        Tag::Unknown
    }
}

/// The kind of the page with file name `n`: `index.html` is a module page,
/// otherwise the text before the first `.` says the kind.
pub open spec fn tag_of_name(n: Seq<char>) -> Tag {
    if n == "index.html"@ {
        Tag::Module
    } else {
        kind_of_word(split_on(n, '.')[0])
    }
}

/// The kind of the page at path `p`, which depends on its file name alone.
pub open spec fn tag_of_path(p: Seq<Seq<char>>) -> Tag {
    tag_of_name(p.last())
}

/// The file name `n` without its first `.`-separated word and without its
/// extension (the last `.`-separated word, where there are three or more).
pub open spec fn without_prefix_of(n: Seq<char>) -> Seq<char> {
    let pieces = split_on(n, '.');
    if pieces.len() <= 1 {
        Seq::empty()
    } else if pieces.len() == 2 {
        pieces[1]
    } else {
        join(pieces.subrange(1, pieces.len() - 1), "."@)
    }
}

/// Whether the directory entry `name` is the page of `symbol`:
/// `<word>.<symbol>.html` with the word of a prefixed kind.
pub open spec fn entry_matches(name: Seq<char>, symbol: Seq<char>) -> bool {
    let t = tag_of_name(name);
    is_prefixed(t) && name == keyword(t) + "."@ + symbol + ".html"@
}

impl Tag {
    /// The kind that the first word of a file name stands for.
    pub fn from_word(w: &str) -> (r: Tag)
        ensures
            r == kind_of_word(w@),
    {
        if same_text(w, "constant") {
            Tag::Constant
        } else if same_text(w, "enum") {
            Tag::Enum
        } else if same_text(w, "fn") {
            Tag::Function
        } else if same_text(w, "macro") {
            Tag::Macro
        } else if same_text(w, "primitive") {
            Tag::Primitive
        } else if same_text(w, "struct") {
            Tag::Struct
        } else if same_text(w, "trait") {
            Tag::Trait
        } else {
            Tag::Unknown
        }
    }

    /// Classifies a file name by rustdoc's naming convention.
    pub fn from_file_name(name: &str) -> (r: Tag)
        ensures
            r == tag_of_name(name@),
    {
        if same_text(name, "index.html") {
            return Tag::Module;
        }
        let pieces = split_string(name, '.');
        proof {
            lemma_join_split(name@, '.', Seq::empty());
        }
        assert(pieces.deep_view()[0] == pieces[0]@);
        Tag::from_word(pieces[0].as_str())
    }

    /// Classifies a path by its file name.
    pub fn from(path: &DocPath) -> (r: Tag)
        requires
            path@.len() > 0,
        ensures
            r == tag_of_path(path@),
    {
        assert(path@.last() == path.parts[path.parts.len() - 1]@);
        Tag::from_file_name(path.parts[path.parts.len() - 1].as_str())
    }

    /// Whether pages of this kind are named `<word>.<name>.html`.
    pub fn is_prefixed(&self) -> (r: bool)
        ensures
            r == is_prefixed(*self),
    {
        !(matches!(self, Tag::Module) || matches!(self, Tag::Unknown) || matches!(self, Tag::Method))
    }

    /// The word that starts the file names of pages of this kind.
    pub fn keyword(&self) -> (r: &'static str)
        ensures
            r@ == keyword(*self),
    {
        let r = match self {
            Tag::Constant => "constant",
            Tag::Enum => "enum",
            Tag::Function => "fn",
            Tag::Macro => "macro",
            Tag::Primitive => "primitive",
            Tag::Struct => "struct",
            Tag::Trait => "trait",
            _ => "",
        };
        proof {
            reveal_strlit("");
            assert(""@ =~= Seq::<char>::empty());
        }
        r
    }
}

/// The file name `n` without its first word and its extension.
pub fn without_prefix(n: &str) -> (r: String)
    ensures
        r@ == without_prefix_of(n@),
{
    let pieces = split_string(n, '.');
    if pieces.len() <= 1 {
        String::new()
    } else if pieces.len() == 2 {
        assert(pieces.deep_view()[1] == pieces[1]@);
        pieces[1].clone()
    } else {
        let middle = copy_range(&pieces, 1, pieces.len() - 1);
        join_strings(&middle, ".")
    }
}

/// A resolved documentation page together with what its name says of it.
#[derive(Debug)]
pub struct TaggedPath {
    /// Where the page is.
    pub doc_path: DocPath,
    /// The file name without its kind word and extension, for the kinds whose
    /// file names carry a kind word.
    pub without_prefix: Option<String>,
    /// The last component of the path.
    pub file_name: String,
    /// The kind of the page.
    pub tag: Tag,
    /// The method asked for on this page, if the query named one.
    pub method_name: Option<String>,
}

impl TaggedPath {
    /// This is the page at path `p`, with the method `m` asked for.
    pub open spec fn describes(self, p: Seq<Seq<char>>, m: Option<Seq<char>>) -> bool {
        &&& p.len() > 0
        &&& self.doc_path@ == p
        &&& self.file_name@ == p.last()
        &&& self.tag == tag_of_path(p)
        &&& self.without_prefix.deep_view() == (if is_prefixed(tag_of_path(p)) {
            Some(without_prefix_of(p.last()))
        } else {
            None
        })
        &&& self.method_name.deep_view() == m
    }

    /// Tags the page at `path`.
    pub fn from(path: DocPath) -> (r: TaggedPath)
        requires
            path@.len() > 0,
        ensures
            r.describes(path@, None),
    {
        let file_name = path.parts[path.parts.len() - 1].clone();
        assert(file_name@ == path@.last());
        let tag = Tag::from(&path);
        let without_prefix = if tag.is_prefixed() {
            Some(without_prefix(file_name.as_str()))
        } else {
            None
        };
        TaggedPath { doc_path: path, without_prefix, file_name, tag, method_name: None }
    }

    /// The path written out.
    pub fn path(&self) -> (r: String)
        ensures
            r@ == join(self.doc_path@, "/"@),
    {
        self.doc_path.as_string()
    }

    /// What is to be extracted from the page: a method where one was asked
    /// for, otherwise what the page's kind calls for (a method page with no
    /// method named has nothing more than a summary).
    pub fn kind(&self) -> (r: Tag)
        ensures
            r == (if self.method_name is Some {
                Tag::Method
            } else if self.tag is Method {
                Tag::Unknown
            } else {
                self.tag
            }),
    {
        if self.method_name.is_some() {
            Tag::Method
        } else if matches!(self.tag, Tag::Method) {
            Tag::Unknown
        } else {
            self.tag
        }
    }
}

/// Where the documentation of a query is kept.
#[derive(PartialEq, Eq, Structural, Clone, Copy, Debug)]
pub enum CrateType {
    /// The standard library's documentation, shipped with the toolchain.
    StdLib,
    /// Documentation that Cargo built for the current crate.
    Cargo,
}

/// Whether a query names a method or something with a page of its own.
#[derive(PartialEq, Eq, Structural, Clone, Copy, Debug)]
pub enum QueryType {
    /// The last component names a method of the page that the others resolve to.
    InstanceMethod,
    /// The last component names a module or a symbol.
    Unknown,
}

/// The documentation root for `crate_type`, given the base directory that
/// was found for it (the toolchain's sysroot, or the crate's own root).
pub open spec fn doc_root_of(crate_type: CrateType, base: Seq<Seq<char>>) -> Seq<Seq<char>> {
    match crate_type {
        CrateType::StdLib => base + seq!["share"@, "doc"@, "rust"@, "html"@],
        CrateType::Cargo => base + seq!["target"@, "doc"@],
    }
}

/// The documentation root for `crate_type` under the base directory found
/// for it, or nothing when no base was found.
pub fn get_doc_root(crate_type: &CrateType, base: Option<DocPath>) -> (r: Option<DocPath>)
    ensures
        base is None ==> r is None,
        base is Some ==> r is Some && r->0@ == doc_root_of(*crate_type, base->0@),
{
    match base {
        None => None,
        Some(b) => {
            let mut root = b;
            match crate_type {
                CrateType::StdLib => {
                    root.push("share".to_owned());
                    root.push("doc".to_owned());
                    root.push("rust".to_owned());
                    root.push("html".to_owned());
                },
                CrateType::Cargo => {
                    root.push("target".to_owned());
                    root.push("doc".to_owned());
                },
            }
            assert(root@ =~= doc_root_of(*crate_type, b@));
            Some(root)
        },
    }
}

/// The listing of the `k`th directory searched, if it was read.
pub open spec fn listing_at(listings: Seq<Option<Seq<Seq<char>>>>, k: int) -> Option<
    Seq<Seq<char>>,
> {
    if 0 <= k < listings.len() {
        listings[k]
    } else {
        None
    }
}

/// The first entry from index `j` on that is the page of `symbol`.
pub open spec fn find_entry(entries: Seq<Seq<char>>, symbol: Seq<char>, j: int) -> Option<
    Seq<char>,
>
    decreases entries.len() - j,
{
    if j < 0 || j >= entries.len() {
        None
    } else if entry_matches(entries[j], symbol) {
        Some(entries[j])
    } else {
        find_entry(entries, symbol, j + 1)
    }
}

/// What one directory of the search yields: the page of `symbol` among its
/// entries, or else the directory itself where its own name is the file name
/// sought.
pub open spec fn level_result(
    level: Seq<Seq<char>>,
    listing: Option<Seq<Seq<char>>>,
    symbol: Seq<char>,
) -> Option<Seq<Seq<char>>> {
    let found = match listing {
        Some(es) => find_entry(es, symbol, 0),
        None => None,
    };
    match found {
        Some(n) => Some(level.push(n)),
        None => if level.len() > 0 && level.last() == symbol + ".html"@ {
            Some(level)
        } else {
            None
        },
    }
}

/// The upward search from `root + dir`, one directory at a time, stopping
/// short of `root`; the `k`th listing belongs to the directory searched `k`th.
pub open spec fn walk(
    root: Seq<Seq<char>>,
    dir: Seq<Seq<char>>,
    listings: Seq<Option<Seq<Seq<char>>>>,
    symbol: Seq<char>,
    k: int,
) -> Option<Seq<Seq<char>>>
    decreases dir.len(),
{
    if dir.len() == 0 {
        None
    } else {
        match level_result(root + dir, listing_at(listings, k), symbol) {
            Some(p) => Some(p),
            None => walk(root, dir.drop_last(), listings, symbol, k + 1),
        }
    }
}

/// Maps a user query onto a file of the documentation tree, and says what
/// kind of page it found so that the page can be read accordingly.
#[derive(Debug)]
pub struct Locator {
    /// The documentation root.
    pub root: DocPath,
    /// Which documentation the query is into.
    pub crate_type: CrateType,
    /// Whether the query names a method.
    pub query_type: QueryType,
    /// The components of the query.
    pub components: Vec<String>,
}

impl Locator {
    /// The components that name the page: all of them, but the method where
    /// the query names one.
    pub open spec fn symbol_parts(self) -> Seq<Seq<char>> {
        if self.query_type is InstanceMethod && self.components.len() > 0 {
            self.components.deep_view().drop_last()
        } else {
            self.components.deep_view()
        }
    }

    /// The method that the query names, if any.
    pub open spec fn method_of(self) -> Option<Seq<char>> {
        if self.query_type is InstanceMethod && self.components.len() > 0 {
            Some(self.components.deep_view().last())
        } else {
            None
        }
    }

    /// The directory part of the page's name.
    pub open spec fn dir(self) -> Seq<Seq<char>> {
        self.symbol_parts().drop_last()
    }

    /// The symbol that the page is sought for.
    pub open spec fn symbol(self) -> Seq<char> {
        self.symbol_parts().last()
    }

    /// Whether the query leaves a symbol to look for.
    pub open spec fn searchable(self) -> bool {
        self.symbol_parts().len() > 0
    }

    /// The directory that is a module of the symbol's name, if there is one.
    pub open spec fn module_dir_spec(self) -> Seq<Seq<char>> {
        self.root@ + self.dir() + seq![self.symbol()]
    }

    /// The `k`th directory of the upward search.
    pub open spec fn level(self, k: int) -> Seq<Seq<char>> {
        self.root@ + self.dir().take(self.dir().len() - k)
    }

    /// The page that the search finds, given whether the module directory
    /// exists and the listings of the directories searched.
    pub open spec fn resolved(
        self,
        module_dir_exists: bool,
        listings: Seq<Option<Seq<Seq<char>>>>,
    ) -> Option<Seq<Seq<char>>> {
        if module_dir_exists {
            Some(self.module_dir_spec().push("index.html"@))
        } else {
            walk(self.root@, self.dir(), listings, self.symbol(), 0)
        }
    }

    /// A locator for the parsed `query` under the documentation root `root`.
    pub fn new(query: String, root: DocPath) -> (r: Locator)
        requires
            query_parts(query@).len() > 0,
        ensures
            r.root@ == root@,
            r.components.deep_view() == query_parts(query@),
            r.crate_type == (if query_parts(query@)[0] == "std"@ {
                CrateType::StdLib
            } else {
                CrateType::Cargo
            }),
            r.query_type == (if query@.contains('.') {
                QueryType::InstanceMethod
            } else {
                QueryType::Unknown
            }),
    {
        let q = crate::query::Query::from(query);
        let crate_type = if q.is_stdlib {
            CrateType::StdLib
        } else {
            CrateType::Cargo
        };
        let query_type = if q.is_method {
            QueryType::InstanceMethod
        } else {
            QueryType::Unknown
        };
        Locator { root, crate_type, query_type, components: q.components }
    }

    /// How many components name the page.
    fn symbol_len(&self) -> (r: usize)
        ensures
            r == self.symbol_parts().len(),
    {
        if matches!(self.query_type, QueryType::InstanceMethod) && self.components.len() > 0 {
            self.components.len() - 1
        } else {
            self.components.len()
        }
    }

    /// The directory part of the page's name, relative to the root.
    pub fn query_dir_as_path_buf(&self) -> (r: DocPath)
        requires
            self.searchable(),
        ensures
            r@ == self.dir(),
    {
        let n = self.symbol_len();
        let parts = copy_range(&self.components, 0, n - 1);
        assert(parts.deep_view() =~= self.dir());
        DocPath { parts }
    }

    /// The symbol sought.
    pub fn last_component(&self) -> (r: String)
        requires
            self.searchable(),
        ensures
            r@ == self.symbol(),
    {
        let n = self.symbol_len();
        assert(self.components.deep_view()[n - 1] == self.components[n - 1]@);
        self.components[n - 1].clone()
    }

    /// The file name of the symbol's page: `<symbol>.html`.
    pub fn query_filename(&self) -> (r: String)
        requires
            self.searchable(),
        ensures
            r@ == self.symbol() + ".html"@,
    {
        let mut r = self.last_component();
        r.append(".html");
        r
    }

    /// The method that the query names, if any.
    pub fn method_name(&self) -> (r: Option<String>)
        ensures
            r.deep_view() == self.method_of(),
    {
        if matches!(self.query_type, QueryType::InstanceMethod) && self.components.len() > 0 {
            let n = self.components.len();
            assert(self.components.deep_view().last() == self.components[n - 1]@);
            Some(self.components[n - 1].clone())
        } else {
            None
        }
    }

    /// The directory which, where it exists, makes the query a module whose
    /// page is its `index.html`.
    pub fn module_dir(&self) -> (r: DocPath)
        requires
            self.searchable(),
        ensures
            r@ == self.module_dir_spec(),
    {
        let mut p = self.root.copy();
        p.extend(&self.query_dir_as_path_buf().parts);
        p.push(self.last_component());
        p
    }

    /// The directories of the upward search, in the order searched: from the
    /// query's directory up to, but not including, the root.
    pub fn search_levels(&self) -> (r: Vec<DocPath>)
        requires
            self.searchable(),
        ensures
            r.len() == self.dir().len(),
            forall|k: int| 0 <= k < r.len() ==> (#[trigger] r[k])@ == self.level(k),
    {
        let dir = self.query_dir_as_path_buf();
        let n = dir.parts.len();
        let mut r: Vec<DocPath> = Vec::new();
        let mut k: usize = 0;
        while k < n
            invariant
                k <= n == self.dir().len(),
                dir@ == self.dir(),
                r.len() == k,
                forall|j: int| 0 <= j < k ==> (#[trigger] r[j])@ == self.level(j),
            decreases n - k,
        {
            let mut p = self.root.copy();
            let part = copy_range(&dir.parts, 0, n - k);
            p.extend(&part);
            assert(part.deep_view() =~= self.dir().take(self.dir().len() - k));
            r.push(p);
            k += 1;
        }
        r
    }

    /// The first entry of `entries` that is the page of the symbol.
    fn find_entry_exec(&self, entries: &Vec<String>) -> (r: Option<usize>)
        requires
            self.searchable(),
        ensures
            match find_entry(entries.deep_view(), self.symbol(), 0) {
                Some(n) => r is Some && r->0 < entries.len() && entries[r->0 as int]@ == n,
                None => r is None,
            },
    {
        let mut want_tail = String::new();
        want_tail.append(".");
        want_tail.append(self.last_component().as_str());
        want_tail.append(".html");
        let mut j: usize = 0;
        while j < entries.len()
            invariant
                j <= entries.len(),
                self.searchable(),
                want_tail@ == "."@ + self.symbol() + ".html"@,
                find_entry(entries.deep_view(), self.symbol(), 0) == find_entry(
                    entries.deep_view(),
                    self.symbol(),
                    j as int,
                ),
            decreases entries.len() - j,
        {
            let name = entries[j].as_str();
            assert(entries.deep_view()[j as int] == entries[j as int]@);
            let t = Tag::from_file_name(name);
            if t.is_prefixed() {
                let mut want = t.keyword().to_owned();
                want.append(want_tail.as_str());
                assert(want@ =~= keyword(t) + "."@ + self.symbol() + ".html"@);
                if same_text(name, want.as_str()) {
                    return Some(j);
                }
            }
            j += 1;
        }
        None
    }

    /// The page that the query resolves to. `module_dir_exists` says whether
    /// `module_dir()` is a directory; `listings[k]` holds the entry names of
    /// the `k`th directory of `search_levels()`, or nothing where it could not
    /// be read.
    pub fn determine_tagged_path(
        &self,
        module_dir_exists: bool,
        listings: &Vec<Option<Vec<String>>>,
    ) -> (r: Option<TaggedPath>)
        requires
            self.searchable(),
        ensures
            match self.resolved(module_dir_exists, listings.deep_view()) {
                Some(p) => r is Some && r->0.describes(p, self.method_of()),
                None => r is None,
            },
    {
        let method = self.method_name();
        if module_dir_exists {
            let mut p = self.module_dir();
            p.push("index.html".to_owned());
            let mut tp = TaggedPath::from(p);
            tp.method_name = method;
            return Some(tp);
        }
        let levels = self.search_levels();
        let ghost lv = listings.deep_view();
        let mut k: usize = 0;
        assert(self.dir().take(self.dir().len() - 0) =~= self.dir());
        while k < levels.len()
            invariant
                k <= levels.len() == self.dir().len(),
                !module_dir_exists,
                self.searchable(),
                method.deep_view() == self.method_of(),
                lv == listings.deep_view(),
                forall|j: int| 0 <= j < levels.len() ==> (#[trigger] levels[j])@ == self.level(j),
                walk(self.root@, self.dir(), lv, self.symbol(), 0) == walk(
                    self.root@,
                    self.dir().take(self.dir().len() - k),
                    lv,
                    self.symbol(),
                    k as int,
                ),
            decreases levels.len() - k,
        {
            let ghost d = self.dir().take(self.dir().len() - k);
            assert(self.root@ + d == self.level(k as int));
            assert(d.drop_last() =~= self.dir().take(self.dir().len() - (k + 1)));
            let level = &levels[k];
            assert(listing_at(lv, k as int) == (if k < listings.len() {
                listings[k as int].deep_view()
            } else {
                None
            }));
            let ghost found = match listing_at(lv, k as int) {
                Some(es) => find_entry(es, self.symbol(), 0),
                None => None,
            };
            assert(d.len() > 0);
            assert(level@ == self.root@ + d);
            if k < listings.len() {
                if let Some(entries) = &listings[k] {
                    if let Some(j) = self.find_entry_exec(entries) {
                        let mut p = level.copy();
                        p.push(entries[j].clone());
                        assert(p@ == level@.push(found->0));
                        assert(level_result(level@, listing_at(lv, k as int), self.symbol()) == Some(p@));
                        assert(walk(self.root@, d, lv, self.symbol(), k as int) == Some(p@));
                        let ghost pv = p@;
                        let mut tp = TaggedPath::from(p);
                        tp.method_name = method;
                        return Some(tp);
                    }
                }
            }
            assert(found is None);
            let target = self.query_filename();
            if let Some(name) = level.file_name() {
                if name == target {
                    assert(level_result(level@, listing_at(lv, k as int), self.symbol()) == Some(level@));
                    assert(walk(self.root@, d, lv, self.symbol(), k as int) == Some(level@));
                    let mut tp = TaggedPath::from(level.copy());
                    tp.method_name = method;
                    return Some(tp);
                }
            }
            k += 1;
        }
        None
    }

    /// The path of the page that the query resolves to, written out.
    pub fn target_file_path(
        &self,
        module_dir_exists: bool,
        listings: &Vec<Option<Vec<String>>>,
    ) -> (r: Option<String>)
        requires
            self.searchable(),
        ensures
            match self.resolved(module_dir_exists, listings.deep_view()) {
                Some(p) => r is Some && r->0@ == join(p, "/"@),
                None => r is None,
            },
    {
        match self.determine_tagged_path(module_dir_exists, listings) {
            Some(tp) => Some(tp.path()),
            None => None,
        }
    }
}

/// The kind of a page depends on its file name alone: two paths that end in
/// the same file name are classified alike, whatever their directories.
pub proof fn lemma_tag_by_file_name(p1: Seq<Seq<char>>, p2: Seq<Seq<char>>)
    requires
        p1.len() > 0,
        p2.len() > 0,
        p1.last() == p2.last(),
    ensures
        tag_of_path(p1) == tag_of_path(p2),
{
}

/// For every kind whose pages are named `<word>.<name>.html`, the file name
/// `<word>.<x>.html` is classified as that kind and `x` is what remains of it
/// without the prefix; so writing the word, the remainder and `.html` back
/// together gives the file name again.
pub proof fn lemma_without_prefix_round_trip(t: Tag, x: Seq<char>)
    requires
        is_prefixed(t),
    ensures
        tag_of_name(keyword(t) + "."@ + x + ".html"@) == t,
        without_prefix_of(keyword(t) + "."@ + x + ".html"@) == x,
        keyword(t) + "."@ + without_prefix_of(keyword(t) + "."@ + x + ".html"@) + ".html"@
            == keyword(t) + "."@ + x + ".html"@,
{
    reveal_strlit(".");
    reveal_strlit(".html");
    reveal_strlit("html");
    reveal_strlit("index.html");
    reveal_strlit("constant");
    reveal_strlit("enum");
    reveal_strlit("fn");
    reveal_strlit("macro");
    reveal_strlit("primitive");
    reveal_strlit("struct");
    reveal_strlit("trait");
    let kw = keyword(t);
    let n = kw + "."@ + x + ".html"@;
    assert(".html"@ =~= seq!['.'] + "html"@);
    assert(n =~= kw + seq!['.'] + (x + seq!['.'] + "html"@));
    assert(!kw.contains('.'));
    assert(!"html"@.contains('.'));
    lemma_split_concat(kw, x + seq!['.'] + "html"@, '.', Seq::empty());
    lemma_split_concat(x, "html"@, '.', Seq::empty());
    lemma_split_plain(kw, '.', Seq::empty());
    lemma_split_plain("html"@, '.', Seq::empty());
    assert(Seq::<char>::empty() + kw =~= kw);
    assert(Seq::<char>::empty() + "html"@ =~= "html"@);
    let mid = split_on(x, '.');
    lemma_join_split(x, '.', Seq::empty());
    let pieces = split_on(n, '.');
    assert(pieces =~= seq![kw] + mid + seq!["html"@]);
    assert(pieces.subrange(1, pieces.len() - 1) =~= mid);
    assert(Seq::<char>::empty() + x =~= x);
    assert(n != "index.html"@) by {
        assert(n[0] == kw[0]);
        assert("index.html"@[0] == 'i');
    }
    assert(pieces[0] == kw);
    assert(kind_of_word(kw) == t);
    assert("."@ =~= seq!['.']);
    assert(pieces.len() >= 3);
    assert(without_prefix_of(n) == join(mid, "."@));
}

/// A query whose symbol names an existing directory resolves to the module
/// page `index.html` inside that directory.
pub proof fn lemma_module_dir_resolves(loc: Locator, listings: Seq<Option<Seq<Seq<char>>>>)
    requires
        loc.searchable(),
    ensures
        loc.resolved(true, listings) == Some(loc.module_dir_spec().push("index.html"@)),
        tag_of_path(loc.module_dir_spec().push("index.html"@)) == Tag::Module,
{
}

/// The search through a listing reaches the first entry that is the page
/// of `symbol`.
proof fn lemma_find_entry_first(es: Seq<Seq<char>>, symbol: Seq<char>, k: int, j: int)
    requires
        0 <= k <= j < es.len(),
        entry_matches(es[j], symbol),
        forall|i: int| k <= i < j ==> !entry_matches(#[trigger] es[i], symbol),
    ensures
        find_entry(es, symbol, k) == Some(es[j]),
    decreases j - k,
{
    if k < j {
        lemma_find_entry_first(es, symbol, k + 1, j);
    }
}

/// A query resolves to the page `<word>.<symbol>.html` of its own directory
/// when that directory is no module of the symbol's name and the page is
/// the first matching entry of the directory's listing; the page is tagged
/// with the kind that its word stands for, and a method that the query
/// names is left out of the search.
pub proof fn lemma_page_in_query_dir(
    loc: Locator,
    listings: Seq<Option<Seq<Seq<char>>>>,
    es: Seq<Seq<char>>,
    t: Tag,
    j: int,
)
    requires
        loc.searchable(),
        loc.dir().len() > 0,
        listings.len() > 0,
        listings[0] == Some(es),
        is_prefixed(t),
        0 <= j < es.len(),
        es[j] == keyword(t) + "."@ + loc.symbol() + ".html"@,
        forall|i: int| 0 <= i < j ==> !entry_matches(#[trigger] es[i], loc.symbol()),
    ensures
        loc.resolved(false, listings) == Some(loc.root@ + loc.dir() + seq![es[j]]),
        tag_of_path(loc.root@ + loc.dir() + seq![es[j]]) == t,
        loc.query_type is InstanceMethod ==> loc.method_of() == Some(
            loc.components.deep_view().last(),
        ) && loc.symbol() == loc.components.deep_view()[loc.components.len() - 2],
{
    lemma_without_prefix_round_trip(t, loc.symbol());
    lemma_find_entry_first(es, loc.symbol(), 0, j);
    assert(loc.dir().take(loc.dir().len() as int) =~= loc.dir());
    assert(listing_at(listings, 0) == Some(es));
    let p = loc.root@ + loc.dir() + seq![es[j]];
    assert(p =~= (loc.root@ + loc.dir()).push(es[j]));
    assert(p.last() == es[j]);
}

} // verus!
