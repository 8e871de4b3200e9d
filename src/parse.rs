//! Extraction of the useful sections of a rustdoc page, chosen by the kind
//! of page, and their assembly into the text that is shown.
use vstd::prelude::*;
use crate::filter::{check_pattern, filtered, matching_lines, pattern_compiles, FilterError};
use crate::locate::{Tag, TaggedPath};
use crate::markup::{
    has_class, id_is, next_docblock, next_docblock_text, next_index, next_of, node_has_class,
    nodes_view, parse_markup, markup_nodes, DocNode, DocNodeView,
};
use crate::pprint::{heading, max_width, plain_header, ENUM_HEADING_COLOR, SECTION_HEADING_COLOR};
use crate::table::{all_two_cells, table_text, Table};
use crate::text::{
    chars_of, occurs_at_exec, join, join_strings, replace_all, replace_char, replaced, replaced_char, same_text, trim_end,
    trimmed_end,
};

verus! {

/// What a node is looked for by.
pub enum Probe {
    /// Its classes include the given one.
    Class(String),
    /// Its classes include the first and not the second.
    ClassWithout(String, String),
    /// Its `id` is the given one.
    Id(String),
    /// Its classes include the given one and its `id` is the given one.
    ClassAndId(String, String),
}

/// What a node is looked for by, as plain sequences.
pub enum ProbeView {
    Class(Seq<char>),
    ClassWithout(Seq<char>, Seq<char>),
    Id(Seq<char>),
    ClassAndId(Seq<char>, Seq<char>),
}

impl ProbeView {
    /// Whether node `n` is what is looked for.
    pub open spec fn holds(self, n: DocNodeView) -> bool {
        match self {
            ProbeView::Class(c) => has_class(n, c),
            ProbeView::ClassWithout(c, d) => has_class(n, c) && !has_class(n, d),
            ProbeView::Id(i) => n.id == Some(i),
            ProbeView::ClassAndId(c, i) => has_class(n, c) && n.id == Some(i),
        }
    }
}

impl View for Probe {
    type V = ProbeView;

    open spec fn view(&self) -> ProbeView {
        match self {
            Probe::Class(c) => ProbeView::Class(c@),
            Probe::ClassWithout(c, d) => ProbeView::ClassWithout(c@, d@),
            Probe::Id(i) => ProbeView::Id(i@),
            Probe::ClassAndId(c, i) => ProbeView::ClassAndId(c@, i@),
        }
    }
}

impl Probe {
    /// Whether node `n` is what is looked for.
    pub fn test(&self, n: &DocNode) -> (r: bool)
        ensures
            r == self@.holds(n@),
    {
        match self {
            Probe::Class(c) => node_has_class(n, c.as_str()),
            Probe::ClassWithout(c, d) => node_has_class(n, c.as_str()) && !node_has_class(
                n,
                d.as_str(),
            ),
            Probe::Id(i) => id_is(n, i.as_str()),
            Probe::ClassAndId(c, i) => node_has_class(n, c.as_str()) && id_is(n, i.as_str()),
        }
    }
}

/// The first node from index `j` on that `probe` finds.
pub open spec fn find_first(nv: Seq<DocNodeView>, probe: ProbeView, j: int) -> Option<int>
    decreases nv.len() - j,
{
    if j < 0 || j >= nv.len() {
        None
    } else if probe.holds(nv[j]) {
        Some(j)
    } else {
        find_first(nv, probe, j + 1)
    }
}

/// `Some(s)` as a one-element sequence, `None` as an empty one.
pub open spec fn opt_seq(o: Option<Seq<char>>) -> Seq<Seq<char>> {
    match o {
        Some(s) => seq![s],
        None => Seq::empty(),
    }
}

/// The leading run of paragraphs among the nodes `kids`: paragraphs are
/// taken, nodes whose text is a single line feed are passed over, and
/// anything else ends the run.
pub open spec fn summary_paras(nv: Seq<DocNodeView>, kids: Seq<usize>) -> Seq<Seq<char>>
    decreases kids.len(),
{
    if kids.len() == 0 {
        Seq::empty()
    } else {
        let c = kids[0] as int;
        if c >= nv.len() {
            Seq::empty()
        } else if nv[c].name == Some("p"@) {
            seq![nv[c].text] + summary_paras(nv, kids.skip(1))
        } else if nv[c].text == "\n"@ {
            summary_paras(nv, kids.skip(1))
        } else {
            Seq::empty()
        }
    }
}

/// The summary: the leading paragraphs of the first doc block that is not a
/// type declaration, separated by blank lines.
pub open spec fn summary_of(nv: Seq<DocNodeView>) -> Option<Seq<char>> {
    match find_first(nv, ProbeView::ClassWithout("docblock"@, "type-decl"@), 0) {
        Some(i) => Some(join(summary_paras(nv, nv[i].children), "\n\n"@)),
        None => None,
    }
}

/// The texts of the nodes among the first `n` that have class `c`, in order.
pub open spec fn class_texts(nv: Seq<DocNodeView>, c: Seq<char>, n: int) -> Seq<Seq<char>>
    decreases n,
{
    if n <= 0 || n > nv.len() {
        Seq::empty()
    } else if has_class(nv[n - 1], c) {
        class_texts(nv, c, n - 1).push(nv[n - 1].text)
    } else {
        class_texts(nv, c, n - 1)
    }
}

/// The type declaration: the texts of all type declaration blocks, one per line.
pub open spec fn type_decl_of(nv: Seq<DocNodeView>) -> Seq<char> {
    join(class_texts(nv, "type-decl"@, nv.len() as int), "\n"@)
}

/// The texts of those of the first `n` nodes `kids` that have class `c`.
pub open spec fn kid_texts(nv: Seq<DocNodeView>, kids: Seq<usize>, c: Seq<char>, n: int) -> Seq<
    Seq<char>,
>
    decreases n,
{
    if n <= 0 || n > kids.len() {
        Seq::empty()
    } else if kids[n - 1] < nv.len() && has_class(nv[kids[n - 1] as int], c) {
        kid_texts(nv, kids, c, n - 1).push(nv[kids[n - 1] as int].text)
    } else {
        kid_texts(nv, kids, c, n - 1)
    }
}

/// The method signatures: the texts of the method entries of the first block
/// of implementation items, one per line.
pub open spec fn method_list_of(nv: Seq<DocNodeView>) -> Option<Seq<char>> {
    match find_first(nv, ProbeView::Class("impl-items"@), 0) {
        Some(i) => Some(
            join(kid_texts(nv, nv[i].children, "method"@, nv[i].children.len() as int), "\n"@),
        ),
        None => None,
    }
}

/// The text of node `i` and, where the node after it is a doc block, that
/// block's text, separated by `sep`.
pub open spec fn with_docblock(nv: Seq<DocNodeView>, i: int, head: Seq<char>, sep: Seq<char>) -> Seq<
    char,
> {
    join(seq![head] + opt_seq(next_docblock(nv, i)), sep)
}

/// The method `name`: the node with `id` `method.<name>` and the doc block
/// after it, separated by a blank line.
pub open spec fn method_block_of(nv: Seq<DocNodeView>, name: Seq<char>) -> Option<Seq<char>> {
    match find_first(nv, ProbeView::Id("method."@ + name), 0) {
        Some(i) => Some(with_docblock(nv, i, nv[i].text, "\n\n"@)),
        None => None,
    }
}

/// Whether the node's `id` starts with `variant.`.
pub open spec fn is_variant(n: DocNodeView) -> bool {
    match n.id {
        Some(i) => i.len() >= 8 && i.take(8) == "variant."@,
        None => false,
    }
}

/// The indices, among the first `n`, of the nodes of enum variants.
pub open spec fn variant_indices(nv: Seq<DocNodeView>, n: int) -> Seq<int>
    decreases n,
{
    if n <= 0 || n > nv.len() {
        Seq::empty()
    } else if is_variant(nv[n - 1]) {
        variant_indices(nv, n - 1).push(n - 1)
    } else {
        variant_indices(nv, n - 1)
    }
}

/// The indices of all the nodes of enum variants, in order.
pub open spec fn all_variants(nv: Seq<DocNodeView>) -> Seq<int> {
    variant_indices(nv, nv.len() as int)
}

/// For each of the variants at `idx`, its heading `hs[k]` and, where a doc
/// block follows it, that block's text on the next line.
pub open spec fn variant_blocks(nv: Seq<DocNodeView>, idx: Seq<int>, hs: Seq<Seq<char>>) -> Seq<
    Seq<char>,
> {
    Seq::new(idx.len(), |k: int| with_docblock(nv, idx[k], hs[k], "\n"@))
}

/// The uncoloured headings of the variants at `idx`: each variant's text
/// after the `::` marker.
pub open spec fn plain_variant_heads(nv: Seq<DocNodeView>, idx: Seq<int>) -> Seq<Seq<char>> {
    Seq::new(idx.len(), |k: int| plain_header(nv[idx[k]].text))
}

/// The enum variants, one after the other, under the headings `hs`.
pub open spec fn variants_with(nv: Seq<DocNodeView>, hs: Seq<Seq<char>>) -> Seq<char> {
    join(variant_blocks(nv, all_variants(nv), hs), "\n"@)
}

/// The enum variants, one after the other, under uncoloured headings.
pub open spec fn variants_of(nv: Seq<DocNodeView>) -> Seq<char> {
    variants_with(nv, plain_variant_heads(nv, all_variants(nv)))
}

/// The text of a table cell: its line feeds made spaces, trailing white
/// space dropped.
pub open spec fn cell_text(nv: Seq<DocNodeView>, c: usize) -> Seq<char> {
    if c < nv.len() {
        trim_end(replace_char(nv[c as int].text, '\n', ' '))
    } else {
        Seq::empty()
    }
}

/// The cells of the table row at node `r`.
pub open spec fn row_cells(nv: Seq<DocNodeView>, r: usize) -> Seq<Seq<char>> {
    if r < nv.len() {
        Seq::new(nv[r as int].children.len(), |m: int| cell_text(nv, nv[r as int].children[m]))
    } else {
        Seq::empty()
    }
}

/// The body of the table after the section header `h`: the header, past one
/// node, the table, and its first child.
pub open spec fn table_body_of(nv: Seq<DocNodeView>, h: Seq<char>) -> Option<int> {
    match find_first(nv, ProbeView::ClassAndId("section-header"@, h), 0) {
        Some(i) => match next_of(nv, i) {
            Some(a) => match next_of(nv, a) {
                Some(b) => if nv[b].children.len() > 0 && nv[b].children[0] < nv.len() {
                    Some(nv[b].children[0] as int)
                } else {
                    None
                },
                None => None,
            },
            None => None,
        },
        None => None,
    }
}

/// The rows of the table after the section header `h`; nothing where there
/// is no such table or its body has no rows.
pub open spec fn table_rows_of(nv: Seq<DocNodeView>, h: Seq<char>) -> Option<Seq<Seq<Seq<char>>>> {
    match table_body_of(nv, h) {
        Some(t) => if nv[t].children.len() > 0 {
            Some(Seq::new(nv[t].children.len(), |k: int| row_cells(nv, nv[t].children[k])))
        } else {
            None
        },
        None => None,
    }
}

/// Whether the table after the section header `h`, if there is one, has two
/// cells in each row.
pub open spec fn table_well_formed(nv: Seq<DocNodeView>, h: Seq<char>) -> bool {
    match table_rows_of(nv, h) {
        Some(rows) => all_two_cells(rows),
        None => true,
    }
}

/// `t`, or its lines that `grep` matches where there is a pattern.
pub open spec fn maybe_filtered(grep: Option<Seq<char>>, t: Seq<char>) -> Seq<char> {
    match grep {
        Some(p) => filtered(p, t),
        None => t,
    }
}

/// The section of the table after the section header `h`: the heading
/// `head`, then the table laid out within `width`, filtered by `grep`.
pub open spec fn table_section(
    nv: Seq<DocNodeView>,
    h: Seq<char>,
    head: Seq<char>,
    grep: Option<Seq<char>>,
    width: nat,
) -> Option<Seq<char>> {
    match table_rows_of(nv, h) {
        Some(rows) => Some(head + "\n"@ + maybe_filtered(grep, table_text(rows, width))),
        None => None,
    }
}

/// The tables that a module page shows, in order.
pub open spec fn module_tables() -> Seq<Seq<char>> {
    seq![
        "modules"@,
        "traits"@,
        "constants"@,
        "structs"@,
        "enums"@,
        "functions"@,
        "macros"@,
    ]
}

/// The uncoloured headings of the tables of a module page.
pub open spec fn plain_table_heads() -> Seq<Seq<char>> {
    Seq::new(7, |k: int| plain_header(module_tables()[k]))
}

/// The sections of a page of kind `kind`, in order, before empty ones are
/// dropped; `th[k]` is the heading of the `k`th table of a module page and
/// `vh` are the headings of the variants of an enum page.
pub open spec fn sections_with(
    nv: Seq<DocNodeView>,
    kind: Tag,
    method: Seq<char>,
    grep: Option<Seq<char>>,
    width: nat,
    th: Seq<Seq<char>>,
    vh: Seq<Seq<char>>,
) -> Seq<Seq<char>> {
    match kind {
        Tag::Module => opt_seq(summary_of(nv)) + opt_seq(
            table_section(nv, "modules"@, th[0], grep, width),
        ) + opt_seq(table_section(nv, "traits"@, th[1], grep, width)) + opt_seq(
            table_section(nv, "constants"@, th[2], grep, width),
        ) + opt_seq(table_section(nv, "structs"@, th[3], grep, width)) + opt_seq(
            table_section(nv, "enums"@, th[4], grep, width),
        ) + opt_seq(table_section(nv, "functions"@, th[5], grep, width)) + opt_seq(
            table_section(nv, "macros"@, th[6], grep, width),
        ),
        Tag::Struct => seq![type_decl_of(nv)] + opt_seq(summary_of(nv)) + opt_seq(
            match method_list_of(nv) {
                Some(m) => Some(maybe_filtered(grep, m)),
                None => None,
            },
        ),
        Tag::Method => seq![
            match method_block_of(nv, method) {
                Some(b) => b,
                None => method + " is not method"@,
            },
        ],
        Tag::Enum => opt_seq(summary_of(nv)) + seq![maybe_filtered(grep, variants_with(nv, vh))],
        _ => opt_seq(summary_of(nv)),
    }
}

/// The sections of a page of kind `kind` under uncoloured headings.
pub open spec fn sections_of(
    nv: Seq<DocNodeView>,
    kind: Tag,
    method: Seq<char>,
    grep: Option<Seq<char>>,
    width: nat,
) -> Seq<Seq<char>> {
    sections_with(
        nv,
        kind,
        method,
        grep,
        width,
        plain_table_heads(),
        plain_variant_heads(nv, all_variants(nv)),
    )
}

/// The sections that are not empty, in order.
pub open spec fn nonempty_sections(ss: Seq<Seq<char>>) -> Seq<Seq<char>>
    decreases ss.len(),
{
    if ss.len() == 0 {
        Seq::empty()
    } else if ss.last().len() > 0 {
        nonempty_sections(ss.drop_last()).push(ss.last())
    } else {
        nonempty_sections(ss.drop_last())
    }
}

/// The text shown for a page: its non-empty sections separated by blank
/// lines, with the `[src]` link text taken out.
pub open spec fn page_text(sections: Seq<Seq<char>>) -> Seq<char> {
    replace_all(join(nonempty_sections(sections), "\n\n"@), "[src]"@, Seq::empty())
}

/// Why a page could not be rendered.
#[derive(Debug)]
pub enum RenderError {
    /// The filter pattern is not a valid regular expression; the text says why.
    InvalidPattern(String),
    /// A row of the named table does not have exactly two cells.
    MalformedTable(String),
}

/// Parses generated HTML output from rustdoc to give summarised results.
pub struct DocParser {
    /// The nodes of the page.
    pub nodes: Vec<DocNode>,
    /// The kind of the page.
    pub tag: Tag,
    /// The method asked for, if any.
    pub method_name: Option<String>,
    /// The width that tables are laid out within.
    pub width: usize,
    /// Whether headings are written with colour.
    pub styled: bool,
}

impl DocParser {
    /// The contents of the page's nodes.
    pub open spec fn nv(&self) -> Seq<DocNodeView> {
        nodes_view(self.nodes@)
    }

    /// What is to be extracted: a method where one was asked for, otherwise
    /// what the page's kind calls for (a method page with no method named
    /// has nothing more than a summary).
    pub open spec fn kind(&self) -> Tag {
        if self.method_name is Some {
            Tag::Method
        } else if self.tag is Method {
            Tag::Unknown
        } else {
            self.tag
        }
    }

    /// A parser of the page `html` found at `tagged_path`, laying tables out
    /// within the terminal's width and colouring headings.
    pub fn new(tagged_path: TaggedPath, html: &str) -> (r: DocParser)
        ensures
            r.nv() == markup_nodes(html@),
            r.tag == tagged_path.tag,
            r.method_name.deep_view() == tagged_path.method_name.deep_view(),
            r.styled,
    {
        DocParser::with_layout(tagged_path, html, max_width(), true)
    }

    /// A parser of the page `html` found at `tagged_path`, laying tables out
    /// within `width`, with coloured headings where `styled` holds.
    pub fn with_layout(tagged_path: TaggedPath, html: &str, width: usize, styled: bool) -> (r:
        DocParser)
        ensures
            r.nv() == markup_nodes(html@),
            r.tag == tagged_path.tag,
            r.method_name.deep_view() == tagged_path.method_name.deep_view(),
            r.width == width,
            r.styled == styled,
    {
        DocParser {
            nodes: parse_markup(html),
            tag: tagged_path.tag,
            method_name: tagged_path.method_name,
            width,
            styled,
        }
    }

    /// The heading `s`, coloured `color` where headings are styled.
    fn heading(&self, s: &str, color: &str) -> (r: String)
        ensures
            !self.styled ==> r@ == plain_header(s@),
    {
        heading(s, color, self.styled)
    }

    /// The first node that `probe` finds.
    fn find_node(&self, probe: &Probe) -> (r: Option<usize>)
        ensures
            r is None <==> find_first(self.nv(), probe@, 0) is None,
            r is Some ==> r->0 < self.nodes.len() && find_first(self.nv(), probe@, 0) == Some(
                r->0 as int,
            ),
    {
        let mut j: usize = 0;
        while j < self.nodes.len()
            invariant
                j <= self.nodes.len(),
                find_first(self.nv(), probe@, 0) == find_first(self.nv(), probe@, j as int),
            decreases self.nodes.len() - j,
        {
            assert(self.nv()[j as int] == self.nodes[j as int]@);
            if probe.test(&self.nodes[j]) {
                return Some(j);
            }
            j += 1;
        }
        None
    }

    /// The summary of the page, if it has one.
    pub fn extract_summary(&self) -> (r: Option<String>)
        ensures
            r.deep_view() == summary_of(self.nv()),
    {
        let probe = Probe::ClassWithout("docblock".to_owned(), "type-decl".to_owned());
        assert(probe@ == ProbeView::ClassWithout("docblock"@, "type-decl"@));
        let i = match self.find_node(&probe) {
            Some(i) => i,
            None => return None,
        };
        let ghost nv = self.nv();
        let kids = &self.nodes[i].children;
        assert(nv[i as int].children == kids@);
        let mut paras: Vec<String> = Vec::new();
        let mut k: usize = 0;
        let mut stop = false;
        assert(kids@.skip(0) =~= kids@);
        assert(paras.deep_view() + summary_paras(nv, kids@) =~= summary_paras(nv, kids@));
        while k < kids.len() && !stop
            invariant
                k <= kids.len(),
                nv == self.nv(),
                stop ==> summary_paras(nv, kids@.skip(k as int)) == Seq::<Seq<char>>::empty(),
                paras.deep_view() + summary_paras(nv, kids@.skip(k as int)) == summary_paras(
                    nv,
                    kids@,
                ),
            decreases kids.len() - k + (if stop { 0int } else { 1int }),
        {
            let ghost rest = kids@.skip(k as int);
            assert(rest.skip(1) =~= kids@.skip(k as int + 1));
            let c = kids[k];
            if c >= self.nodes.len() {
                stop = true;
                continue;
            }
            let node = &self.nodes[c];
            assert(nv[c as int] == node@);
            let is_p = match &node.name {
                Some(nm) => same_text(nm.as_str(), "p"),
                None => false,
            };
            if is_p {
                let ghost before = paras.deep_view();
                let t = node.text.clone();
                paras.push(t);
                assert(paras.deep_view() =~= before.push(t@));
                assert(before + summary_paras(nv, rest) =~= before.push(t@) + summary_paras(
                    nv,
                    rest.skip(1),
                ));
            } else if same_text(node.text.as_str(), "\n") {
            } else {
                stop = true;
                continue;
            }
            k += 1;
        }
        assert(paras.deep_view() == summary_paras(nv, kids@)) by {
            if !stop {
                assert(kids@.skip(k as int) =~= Seq::<usize>::empty());
            }
            assert(paras.deep_view() + Seq::<Seq<char>>::empty() =~= paras.deep_view());
        }
        Some(join_strings(&paras, "\n\n"))
    }

    /// The type declaration of the page.
    pub fn extract_type_declaration(&self) -> (r: String)
        ensures
            r@ == type_decl_of(self.nv()),
    {
        let ghost nv = self.nv();
        let mut texts: Vec<String> = Vec::new();
        let mut i: usize = 0;
        while i < self.nodes.len()
            invariant
                i <= self.nodes.len(),
                nv == self.nv(),
                texts.deep_view() == class_texts(nv, "type-decl"@, i as int),
            decreases self.nodes.len() - i,
        {
            assert(nv[i as int] == self.nodes[i as int]@);
            if node_has_class(&self.nodes[i], "type-decl") {
                let ghost before = texts.deep_view();
                let t = self.nodes[i].text.clone();
                texts.push(t);
                assert(texts.deep_view() =~= before.push(t@));
            }
            i += 1;
        }
        join_strings(&texts, "\n")
    }

    /// The method signatures of the page, if it has a block of
    /// implementation items.
    pub fn extract_method_signatures(&self) -> (r: Option<String>)
        ensures
            r.deep_view() == method_list_of(self.nv()),
    {
        let probe = Probe::Class("impl-items".to_owned());
        assert(probe@ == ProbeView::Class("impl-items"@));
        let i = match self.find_node(&probe) {
            Some(i) => i,
            None => return None,
        };
        let ghost nv = self.nv();
        let kids = &self.nodes[i].children;
        assert(nv[i as int].children == kids@);
        let mut texts: Vec<String> = Vec::new();
        let mut k: usize = 0;
        while k < kids.len()
            invariant
                k <= kids.len(),
                nv == self.nv(),
                texts.deep_view() == kid_texts(nv, kids@, "method"@, k as int),
            decreases kids.len() - k,
        {
            let c = kids[k];
            if c < self.nodes.len() {
                assert(nv[c as int] == self.nodes[c as int]@);
                if node_has_class(&self.nodes[c], "method") {
                    let ghost before = texts.deep_view();
                    let t = self.nodes[c].text.clone();
                    texts.push(t);
                    assert(texts.deep_view() =~= before.push(t@));
                }
            }
            k += 1;
        }
        Some(join_strings(&texts, "\n"))
    }

    /// The text of node `i`, and of the doc block after it if there is one,
    /// separated by `sep`.
    fn with_docblock_exec(&self, i: usize, head: String, sep: &str) -> (r: String)
        requires
            i < self.nodes.len(),
        ensures
            r@ == with_docblock(self.nv(), i as int, head@, sep@),
    {
        let mut parts: Vec<String> = Vec::new();
        let ghost h = head@;
        parts.push(head);
        let ghost nb = next_docblock(self.nv(), i as int);
        match next_docblock_text(&self.nodes, i) {
            Some(t) => {
                let ghost tv = t@;
                parts.push(t);
                assert(parts.deep_view() =~= seq![h] + opt_seq(nb));
            },
            None => {
                assert(parts.deep_view() =~= seq![h] + opt_seq(nb));
            },
        }
        join_strings(&parts, sep)
    }

    /// The block of the method `name`, if the page has it.
    pub fn extract_method_named(&self, name: &str) -> (r: Option<String>)
        ensures
            r.deep_view() == method_block_of(self.nv(), name@),
    {
        let mut id = "method.".to_owned();
        id.append(name);
        let probe = Probe::Id(id);
        assert(probe@ == ProbeView::Id("method."@ + name@));
        let i = match self.find_node(&probe) {
            Some(i) => i,
            None => return None,
        };
        assert(self.nv()[i as int] == self.nodes[i as int]@);
        Some(self.with_docblock_exec(i, self.nodes[i].text.clone(), "\n\n"))
    }

    /// The enum variants of the page, one after the other.
    pub fn extract_enum_variants(&self) -> (r: String)
        ensures
            exists|hs: Seq<Seq<char>>|
                hs.len() == all_variants(self.nv()).len() && r@ == variants_with(self.nv(), hs),
            !self.styled ==> r@ == variants_of(self.nv()),
    {
        let ghost nv = self.nv();
        let ghost mut hs: Seq<Seq<char>> = Seq::empty();
        let mut blocks: Vec<String> = Vec::new();
        let mut i: usize = 0;
        while i < self.nodes.len()
            invariant
                i <= self.nodes.len(),
                nv == self.nv(),
                hs.len() == variant_indices(nv, i as int).len(),
                blocks.deep_view() == variant_blocks(nv, variant_indices(nv, i as int), hs),
                !self.styled ==> hs == plain_variant_heads(nv, variant_indices(nv, i as int)),
            decreases self.nodes.len() - i,
        {
            assert(nv[i as int] == self.nodes[i as int]@);
            if is_variant_node(&self.nodes[i]) {
                let head = self.heading(self.nodes[i].text.as_str(), ENUM_HEADING_COLOR);
                let ghost hv = head@;
                let b = self.with_docblock_exec(i, head, "\n");
                let ghost before = blocks.deep_view();
                blocks.push(b);
                assert(blocks.deep_view() =~= before.push(b@));
                proof {
                    let vi = variant_indices(nv, i as int);
                    assert(variant_indices(nv, i as int + 1) == vi.push(i as int));
                    assert(variant_blocks(nv, vi.push(i as int), hs.push(hv)) =~= variant_blocks(
                        nv,
                        vi,
                        hs,
                    ).push(b@));
                    if !self.styled {
                        assert(plain_variant_heads(nv, vi.push(i as int)) =~= plain_variant_heads(
                            nv,
                            vi,
                        ).push(hv));
                    }
                    hs = hs.push(hv);
                }
            }
            i += 1;
        }
        let r = join_strings(&blocks, "\n");
        assert(r@ == variants_with(nv, hs));
        r
    }

    /// The text of the table cell at node `c`.
    fn cell_text_exec(&self, c: usize) -> (r: String)
        ensures
            r@ == cell_text(self.nv(), c),
    {
        if c < self.nodes.len() {
            assert(self.nv()[c as int] == self.nodes[c as int]@);
            let flat = replaced_char(self.nodes[c].text.as_str(), '\n', ' ');
            trimmed_end(flat.as_str())
        } else {
            String::new()
        }
    }

    /// The cells of the table row at node `r`.
    fn row_cells_exec(&self, row: usize) -> (r: Vec<String>)
        ensures
            r.deep_view() == row_cells(self.nv(), row),
    {
        let mut cells: Vec<String> = Vec::new();
        if row >= self.nodes.len() {
            assert(cells.deep_view() =~= row_cells(self.nv(), row));
            return cells;
        }
        let ghost nv = self.nv();
        let kids = &self.nodes[row].children;
        assert(nv[row as int].children == kids@);
        let mut m: usize = 0;
        while m < kids.len()
            invariant
                m <= kids.len(),
                nv == self.nv(),
                row < nv.len(),
                nv[row as int].children == kids@,
                cells.deep_view() == row_cells(nv, row).take(m as int),
            decreases kids.len() - m,
        {
            let t = self.cell_text_exec(kids[m]);
            let ghost before = cells.deep_view();
            cells.push(t);
            assert(cells.deep_view() =~= before.push(t@));
            assert(row_cells(nv, row)[m as int] == cell_text(nv, kids@[m as int]));
            assert(cells.deep_view() =~= row_cells(nv, row).take(m as int + 1));
            m += 1;
        }
        assert(row_cells(nv, row).take(kids.len() as int) =~= row_cells(nv, row));
        cells
    }

    /// The table after the section header `h`, laid out; nothing where the
    /// page has no such table, and an error where a row of it does not have
    /// two cells.
    pub fn table_after_header(&self, h: &str) -> (r: Result<Option<String>, RenderError>)
        ensures
            match table_rows_of(self.nv(), h@) {
                None => r is Ok && r->Ok_0 is None,
                Some(rows) => if all_two_cells(rows) {
                    r is Ok && r->Ok_0 is Some && r->Ok_0->0@ == table_text(rows, self.width as nat)
                } else {
                    r is Err
                },
            },
    {
        let ghost nv = self.nv();
        let probe = Probe::ClassAndId("section-header".to_owned(), h.to_owned());
        assert(probe@ == ProbeView::ClassAndId("section-header"@, h@));
        let i = match self.find_node(&probe) {
            Some(i) => i,
            None => return Ok(None),
        };
        let a = match next_index(&self.nodes, i) {
            Some(a) => a,
            None => return Ok(None),
        };
        let b = match next_index(&self.nodes, a) {
            Some(b) => b,
            None => return Ok(None),
        };
        assert(nv[b as int] == self.nodes[b as int]@);
        if self.nodes[b].children.len() == 0 || self.nodes[b].children[0] >= self.nodes.len() {
            return Ok(None);
        }
        let t = self.nodes[b].children[0];
        assert(table_body_of(nv, h@) == Some(t as int));
        assert(nv[t as int] == self.nodes[t as int]@);
        let kids = &self.nodes[t].children;
        if kids.len() == 0 {
            return Ok(None);
        }
        let ghost rows_spec = Seq::new(kids@.len(), |k: int| row_cells(nv, kids@[k]));
        assert(table_rows_of(nv, h@) == Some(rows_spec));
        let mut rows: Vec<Vec<String>> = Vec::new();
        let mut two = true;
        let mut k: usize = 0;
        while k < kids.len()
            invariant
                k <= kids.len(),
                nv == self.nv(),
                rows_spec == Seq::new(kids@.len(), |k: int| row_cells(nv, kids@[k])),
                rows.deep_view() == rows_spec.take(k as int),
                two == all_two_cells(rows_spec.take(k as int)),
            decreases kids.len() - k,
        {
            let cells = self.row_cells_exec(kids[k]);
            if cells.len() != 2 {
                two = false;
            }
            let ghost before = rows.deep_view();
            let ghost cv = cells.deep_view();
            rows.push(cells);
            assert(rows.deep_view() =~= before.push(cv));
            assert(rows_spec.take(k as int + 1) =~= rows_spec.take(k as int).push(cv));
            assert(two == all_two_cells(rows_spec.take(k as int + 1))) by {
                let q = rows_spec.take(k as int + 1);
                assert(q[k as int] == cv);
                if two {
                    assert forall|j: int| 0 <= j < q.len() implies (#[trigger] q[j]).len() == 2 by {
                        if j < k {
                            assert(q[j] == rows_spec.take(k as int)[j]);
                        }
                    }
                } else if cv.len() == 2 {
                    let j = choose|j: int| 0 <= j < k && (#[trigger] rows_spec.take(k as int)[j]).len() != 2;
                    assert(q[j] == rows_spec.take(k as int)[j]);
                }
            }
            k += 1;
        }
        assert(rows_spec.take(kids.len() as int) =~= rows_spec);
        if !two {
            return Err(RenderError::MalformedTable(h.to_owned()));
        }
        let table = Table::from_rows_within(rows, self.width);
        Ok(Some(table.as_string()))
    }

    /// `t`, or its lines that `grep` matches where there is a pattern.
    fn apply_filter(t: String, grep: &Option<String>) -> (r: String)
        requires
            grep is Some ==> pattern_compiles(grep->0@),
        ensures
            r@ == maybe_filtered(grep.deep_view(), t@),
    {
        match grep {
            None => t,
            Some(p) => match matching_lines(t.as_str(), p.as_str()) {
                Ok(s) => s,
                Err(_) => {
                    assert(false);
                    t
                },
            },
        }
    }

    /// The section of the table after the section header `h`: its heading,
    /// then the table filtered by `grep`.
    pub fn table_with_header(&self, h: &str, grep: &Option<String>) -> (r: Result<
        Option<String>,
        RenderError,
    >)
        requires
            grep is Some ==> pattern_compiles(grep->0@),
        ensures
            r is Err <==> !table_well_formed(self.nv(), h@),
            r is Ok ==> (r->Ok_0 is Some <==> table_rows_of(self.nv(), h@) is Some),
            r is Ok ==> exists|hd: Seq<char>|
                r->Ok_0.deep_view() == table_section(
                    self.nv(),
                    h@,
                    hd,
                    grep.deep_view(),
                    self.width as nat,
                ),
            r is Ok && !self.styled ==> r->Ok_0.deep_view() == table_section(
                self.nv(),
                h@,
                plain_header(h@),
                grep.deep_view(),
                self.width as nat,
            ),
    {
        match self.table_after_header(h) {
            Err(e) => Err(e),
            Ok(None) => {
                assert(table_section(self.nv(), h@, Seq::empty(), grep.deep_view(), self.width as nat)
                    is None);
                Ok(None)
            },
            Ok(Some(t)) => {
                let body = DocParser::apply_filter(t, grep);
                let mut s = self.heading(h, SECTION_HEADING_COLOR);
                let ghost hd = s@;
                s.append("\n");
                s.append(body.as_str());
                assert(Some(s@) == table_section(
                    self.nv(),
                    h@,
                    hd,
                    grep.deep_view(),
                    self.width as nat,
                ));
                Ok(Some(s))
            },
        }
    }
}

/// Whether every table that a module page shows has two cells in each row.
pub open spec fn module_tables_ok(nv: Seq<DocNodeView>) -> bool {
    forall|k: int| 0 <= k < module_tables().len() ==> table_well_formed(nv, #[trigger] module_tables()[k])
}

/// The method name as a sequence, empty where there is none.
pub open spec fn method_text(m: Option<Seq<char>>) -> Seq<char> {
    match m {
        Some(s) => s,
        None => Seq::empty(),
    }
}

/// Appends `o` where it is present.
fn push_opt(v: &mut Vec<String>, o: Option<String>)
    ensures
        final(v).deep_view() == old(v).deep_view() + opt_seq(o.deep_view()),
{
    let ghost before = v.deep_view();
    match o {
        Some(s) => {
            let ghost sv = s@;
            v.push(s);
            assert(v.deep_view() =~= before + seq![sv]);
        },
        None => {
            assert(v.deep_view() =~= before + Seq::<Seq<char>>::empty());
        },
    }
}

/// The text shown for the given sections: the non-empty ones separated by
/// blank lines, with the `[src]` link text taken out.
pub fn finish_sections(sections: &Vec<String>) -> (r: String)
    ensures
        r@ == page_text(sections.deep_view()),
{
    let ghost sv = sections.deep_view();
    let mut kept: Vec<String> = Vec::new();
    let mut i: usize = 0;
    while i < sections.len()
        invariant
            i <= sections.len(),
            sv == sections.deep_view(),
            kept.deep_view() == nonempty_sections(sv.take(i as int)),
        decreases sections.len() - i,
    {
        assert(sv.take(i as int + 1).drop_last() =~= sv.take(i as int));
        assert(sv.take(i as int + 1).last() == sections[i as int]@);
        if sections[i].as_str().unicode_len() > 0 {
            let ghost before = kept.deep_view();
            let t = sections[i].clone();
            kept.push(t);
            assert(kept.deep_view() =~= before.push(t@));
        }
        i += 1;
    }
    assert(sv.take(sections.len() as int) =~= sv);
    let joined = join_strings(&kept, "\n\n");
    proof {
        reveal_strlit("");
        assert(""@ =~= Seq::<char>::empty());
    }
    replaced(joined.as_str(), "[src]", "")
}

impl DocParser {
    /// The text shown for the page: the sections that its kind calls for,
    /// with tables and lists filtered by `grep`; headings are only in the
    /// sections of module and enum pages, and where they are coloured the
    /// escape codes around them depend on the terminal. An error where `grep` is not
    /// a valid regular expression, or where a table of a module page has a
    /// row without two cells.
    pub fn render(&self, grep: &Option<String>) -> (r: Result<String, RenderError>)
        ensures
            (grep is Some && !pattern_compiles(grep->0@)) ==> r is Err,
            !(grep is Some && !pattern_compiles(grep->0@)) ==> (r is Err <==> (self.kind()
                == Tag::Module && !module_tables_ok(self.nv()))),
            r is Ok ==> exists|th: Seq<Seq<char>>, vh: Seq<Seq<char>>|
                th.len() == 7 && vh.len() == all_variants(self.nv()).len() && r->Ok_0@ == page_text(
                    #[trigger] sections_with(
                        self.nv(),
                        self.kind(),
                        method_text(self.method_name.deep_view()),
                        grep.deep_view(),
                        self.width as nat,
                        th,
                        vh,
                    ),
                ),
            r is Ok && (!self.styled || !(self.kind() is Module || self.kind() is Enum))
                ==> r->Ok_0@ == page_text(
                sections_of(
                    self.nv(),
                    self.kind(),
                    method_text(self.method_name.deep_view()),
                    grep.deep_view(),
                    self.width as nat,
                ),
            ),
    {
        if let Some(p) = grep {
            match check_pattern(p.as_str()) {
                Err(FilterError::InvalidPattern(m)) => return Err(RenderError::InvalidPattern(m)),
                Ok(()) => {},
            }
        }
        let ghost nv = self.nv();
        let ghost g = grep.deep_view();
        let ghost w = self.width as nat;
        let ghost mt = method_text(self.method_name.deep_view());
        let ghost mut th = plain_table_heads();
        let ghost mut vh = plain_variant_heads(nv, all_variants(nv));
        let mut sections: Vec<String> = Vec::new();
        if let Some(m) = &self.method_name {
            let s = match self.extract_method_named(m.as_str()) {
                Some(b) => b,
                None => {
                    let mut t = m.clone();
                    t.append(" is not method");
                    t
                },
            };
            sections.push(s);
            assert(sections.deep_view() =~= sections_with(nv, Tag::Method, m@, g, w, th, vh));
            return Ok(finish_sections(&sections));
        }
        match self.tag {
            Tag::Module => {
                push_opt(&mut sections, self.extract_summary());
                let h1 = match self.push_table(&mut sections, "modules", grep) {
                    Ok(h) => h,
                    Err(e) => return Err(e),
                };
                let h2 = match self.push_table(&mut sections, "traits", grep) {
                    Ok(h) => h,
                    Err(e) => return Err(e),
                };
                let h3 = match self.push_table(&mut sections, "constants", grep) {
                    Ok(h) => h,
                    Err(e) => return Err(e),
                };
                let h4 = match self.push_table(&mut sections, "structs", grep) {
                    Ok(h) => h,
                    Err(e) => return Err(e),
                };
                let h5 = match self.push_table(&mut sections, "enums", grep) {
                    Ok(h) => h,
                    Err(e) => return Err(e),
                };
                let h6 = match self.push_table(&mut sections, "functions", grep) {
                    Ok(h) => h,
                    Err(e) => return Err(e),
                };
                let h7 = match self.push_table(&mut sections, "macros", grep) {
                    Ok(h) => h,
                    Err(e) => return Err(e),
                };
                proof {
                    assert(module_tables_ok(nv)) by {
                        assert forall|k: int| 0 <= k < module_tables().len() implies table_well_formed(
                            nv,
                            #[trigger] module_tables()[k],
                        ) by {
                            assert(k == 0 || k == 1 || k == 2 || k == 3 || k == 4 || k == 5 || k == 6);
                        }
                    }
                    let heads = seq![h1@, h2@, h3@, h4@, h5@, h6@, h7@];
                    if !self.styled {
                        assert(heads =~= plain_table_heads());
                    }
                    th = heads;
                    assert(sections.deep_view() =~= sections_with(nv, Tag::Module, mt, g, w, th, vh));
                }
            },
            Tag::Struct => {
                let decl = self.extract_type_declaration();
                sections.push(decl);
                push_opt(&mut sections, self.extract_summary());
                let methods = match self.extract_method_signatures() {
                    Some(m) => Some(DocParser::apply_filter(m, grep)),
                    None => None,
                };
                push_opt(&mut sections, methods);
                assert(sections.deep_view() =~= sections_with(nv, Tag::Struct, mt, g, w, th, vh));
            },
            Tag::Enum => {
                push_opt(&mut sections, self.extract_summary());
                let raw = self.extract_enum_variants();
                proof {
                    if self.styled {
                        vh = choose|hs: Seq<Seq<char>>|
                            hs.len() == all_variants(nv).len() && raw@ == variants_with(nv, hs);
                    }
                }
                let vs = DocParser::apply_filter(raw, grep);
                sections.push(vs);
                assert(sections.deep_view() =~= sections_with(nv, Tag::Enum, mt, g, w, th, vh));
            },
            _ => {
                push_opt(&mut sections, self.extract_summary());
                assert(sections.deep_view() =~= sections_with(nv, self.kind(), mt, g, w, th, vh));
            },
        }
        let r = finish_sections(&sections);
        assert(th.len() == 7 && vh.len() == all_variants(nv).len());
        assert(r@ == page_text(sections_with(nv, self.kind(), mt, g, w, th, vh)));
        Ok(r)
    }

    /// Appends the section of the table after the section header `name`,
    /// where the page has that table; the heading text written is given back.
    fn push_table(&self, sections: &mut Vec<String>, name: &str, grep: &Option<String>) -> (r:
        Result<Ghost<Seq<char>>, RenderError>)
        requires
            grep is Some ==> pattern_compiles(grep->0@),
        ensures
            r is Err <==> !table_well_formed(self.nv(), name@),
            r is Ok ==> final(sections).deep_view() == old(sections).deep_view() + opt_seq(
                table_section(self.nv(), name@, r->Ok_0@, grep.deep_view(), self.width as nat),
            ),
            r is Ok && !self.styled ==> r->Ok_0@ == plain_header(name@),
    {
        match self.table_with_header(name, grep) {
            Err(e) => Err(e),
            Ok(o) => {
                let ghost hd = if !self.styled {
                    plain_header(name@)
                } else {
                    choose|hd: Seq<char>|
                        o.deep_view() == table_section(
                            self.nv(),
                            name@,
                            hd,
                            grep.deep_view(),
                            self.width as nat,
                        )
                };
                push_opt(sections, o);
                Ok(Ghost(hd))
            },
        }
    }

    /// The section of the child modules of the page, or a note that it has
    /// none; an error where a row of that table does not have two cells.
    pub fn child_modules(&self) -> (r: Result<String, RenderError>)
        ensures
            r is Err <==> !table_well_formed(self.nv(), "modules"@),
            r is Ok ==> exists|hd: Seq<char>|
                r->Ok_0@ == match #[trigger] table_section(
                    self.nv(),
                    "modules"@,
                    hd,
                    None,
                    self.width as nat,
                ) {
                    Some(s) => s,
                    None => "No child modules found"@,
                },
            r is Ok && !self.styled ==> r->Ok_0@ == match table_section(
                self.nv(),
                "modules"@,
                plain_header("modules"@),
                None,
                self.width as nat,
            ) {
                Some(s) => s,
                None => "No child modules found"@,
            },
    {
        let t = self.table_with_header("modules", &None);
        match t {
            Err(e) => Err(e),
            Ok(o) => {
                let ghost hd = choose|hd: Seq<char>|
                    o.deep_view() == table_section(
                        self.nv(),
                        "modules"@,
                        hd,
                        None,
                        self.width as nat,
                    );
                let r = match o {
                    Some(s) => s,
                    None => "No child modules found".to_owned(),
                };
                assert(r@ == match table_section(self.nv(), "modules"@, hd, None, self.width as nat) {
                    Some(s) => s,
                    None => "No child modules found"@,
                });
                Ok(r)
            },
        }
    }
}

/// Whether the node's `id` starts with `variant.`.
fn is_variant_node(n: &DocNode) -> (r: bool)
    ensures
        r == is_variant(n@),
{
    match &n.id {
        None => false,
        Some(i) => {
            let cs = chars_of(i.as_str());
            let pat = chars_of("variant.");
            proof {
                reveal_strlit("variant.");
            }
            if cs.len() < 8 {
                return false;
            }
            let r = occurs_at_exec(&cs, &pat, 0);
            assert(cs@.take(8) == cs@.subrange(0, 8));
            r
        },
    }
}

} // verus!
