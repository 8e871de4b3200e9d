//! Documentation and signatures read from Rust source, and their plain-text
//! rendering.
use vstd::prelude::*;
use crate::text::{join, join_strings, replace_all, replaced, trim, trimmed};

verus! {

/// A module: its name and its documentation, if it has any.
#[derive(Debug, Clone)]
pub struct Module {
    pub name: String,
    pub docs: Option<String>,
}

/// A function: its signature and its documentation, if it has any.
#[derive(Debug, Clone)]
pub struct Function {
    pub sig: String,
    pub docs: Option<String>,
}

/// The documented items of one module.
#[derive(Debug, Clone)]
pub struct DocItems {
    pub module: Module,
    pub fns: Vec<Function>,
}

/// A module as text: its name in brackets, then its documentation on the
/// next line.
pub open spec fn module_text(name: Seq<char>, docs: Option<Seq<char>>) -> Seq<char> {
    match docs {
        Some(d) => "["@ + name + "]\n"@ + d,
        None => "["@ + name + "]"@,
    }
}

/// A function as text: its documentation, then its signature on the next line.
pub open spec fn function_text(sig: Seq<char>, docs: Option<Seq<char>>) -> Seq<char> {
    match docs {
        Some(d) => d + "\n"@ + sig,
        None => sig,
    }
}

/// The texts of the functions, each followed by a line feed, one after the other.
pub open spec fn functions_text(fns: Seq<Function>) -> Seq<char>
    decreases fns.len(),
{
    if fns.len() == 0 {
        Seq::empty()
    } else {
        functions_text(fns.drop_last()) + function_text(
            fns.last().sig@,
            fns.last().docs.deep_view(),
        ) + "\n"@
    }
}

/// All the items as text: the module, a blank line, then the functions
/// under a `[Functions]` heading.
pub open spec fn items_text(items: DocItems) -> Seq<char> {
    module_text(items.module.name@, items.module.docs.deep_view()) + "\n\n[Functions]\n"@
        + functions_text(items.fns@)
}

impl Module {
    /// The module as text.
    pub fn to_string(&self) -> (r: String)
        ensures
            r@ == module_text(self.name@, self.docs.deep_view()),
    {
        let mut r = "[".to_owned();
        r.append(self.name.as_str());
        match &self.docs {
            Some(d) => {
                r.append("]\n");
                r.append(d.as_str());
            },
            None => {
                r.append("]");
            },
        }
        r
    }
}

impl Function {
    /// The function as text.
    pub fn to_string(&self) -> (r: String)
        ensures
            r@ == function_text(self.sig@, self.docs.deep_view()),
    {
        match &self.docs {
            Some(d) => {
                let mut r = d.clone();
                r.append("\n");
                r.append(self.sig.as_str());
                r
            },
            None => self.sig.clone(),
        }
    }
}

impl DocItems {
    /// All the items as text.
    pub fn render_all(&self) -> (r: String)
        ensures
            r@ == items_text(*self),
    {
        let mut r = self.module.to_string();
        r.append("\n\n[Functions]\n");
        let mut i: usize = 0;
        let ghost start = r@;
        while i < self.fns.len()
            invariant
                i <= self.fns.len(),
                r@ == start + functions_text(self.fns@.take(i as int)),
            decreases self.fns.len() - i,
        {
            assert(self.fns@.take(i as int + 1).drop_last() =~= self.fns@.take(i as int));
            let f = self.fns[i].to_string();
            r.append(f.as_str());
            r.append("\n");
            i += 1;
        }
        assert(self.fns@.take(self.fns.len() as int) =~= self.fns@);
        r
    }
}

/// The documentation of an item, from the values of its doc attributes:
/// each trimmed, one per line; nothing where there are none.
pub fn extract_docs(values: &Vec<String>) -> (r: Option<String>)
    ensures
        values.len() == 0 ==> r is None,
        values.len() > 0 ==> r is Some && r->0@ == join(
            Seq::new(values.len() as nat, |i: int| trim(values[i]@)),
            "\n"@,
        ),
{
    if values.len() == 0 {
        return None;
    }
    let mut lines: Vec<String> = Vec::new();
    let mut i: usize = 0;
    while i < values.len()
        invariant
            i <= values.len(),
            lines.deep_view() == Seq::new(values.len() as nat, |k: int| trim(values[k]@)).take(
                i as int,
            ),
        decreases values.len() - i,
    {
        let t = trimmed(values[i].as_str());
        let ghost before = lines.deep_view();
        lines.push(t);
        assert(lines.deep_view() =~= before.push(t@));
        assert(lines.deep_view() =~= Seq::new(values.len() as nat, |k: int| trim(values[k]@)).take(
            i as int + 1,
        ));
        i += 1;
    }
    assert(Seq::new(values.len() as nat, |k: int| trim(values[k]@)).take(values.len() as int)
        =~= Seq::new(values.len() as nat, |k: int| trim(values[k]@)));
    Some(join_strings(&lines, "\n"))
}

/// A signature as a token printer writes it, with the spaces that it puts
/// around parentheses, angle brackets, references, commas and colons taken out.
pub open spec fn tidy_sig(s: Seq<char>) -> Seq<char> {
    replace_all(
        replace_all(
            replace_all(
                replace_all(
                    replace_all(
                        replace_all(replace_all(s, " ("@, "("@), " < "@, "<"@),
                        " > "@,
                        ">"@,
                    ),
                    " >"@,
                    ">"@,
                ),
                "& "@,
                "&"@,
            ),
            " ,"@,
            ","@,
        ),
        " :"@,
        ":"@,
    )
}

/// Tidies the spacing of a printed signature.
pub fn format_sig(raw: &str) -> (r: String)
    ensures
        r@ == tidy_sig(raw@),
{
    let a = replaced(raw, " (", "(");
    let b = replaced(a.as_str(), " < ", "<");
    let c = replaced(b.as_str(), " > ", ">");
    let d = replaced(c.as_str(), " >", ">");
    let e = replaced(d.as_str(), "& ", "&");
    let f = replaced(e.as_str(), " ,", ",");
    replaced(f.as_str(), " :", ":")
}

} // verus!
