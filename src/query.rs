//! The query typed on the command line: a `::` separated path with an
//! optional `.method` suffix.
use vstd::prelude::*;
use crate::locate::DocPath;
use crate::text::{chars_of, keep_nonempty, same_text, string_of, has_char};

verus! {

/// The non-empty components of a query, read from the left, where `cur` is the
/// component begun before `s`: `::` and `.` both end a component.
pub open spec fn parts_from(s: Seq<char>, cur: Seq<char>) -> Seq<Seq<char>>
    decreases s.len(),
{
    if s.len() == 0 {
        keep_nonempty(cur)
    } else if s.len() >= 2 && s[0] == ':' && s[1] == ':' {
        keep_nonempty(cur) + parts_from(s.skip(2), Seq::empty())
    } else if s[0] == '.' {
        keep_nonempty(cur) + parts_from(s.skip(1), Seq::empty())
    } else {
        parts_from(s.skip(1), cur.push(s[0]))
    }
}

/// The components of the query `s`: split on `::`, each piece split on `.`,
/// the empty pieces dropped.
pub open spec fn query_parts(s: Seq<char>) -> Seq<Seq<char>> {
    parts_from(s, Seq::empty())
}

/// Our parsed input from the command line.
#[derive(Debug)]
pub struct Query {
    /// Whether the query is into the standard library's own documentation
    /// rather than into documentation that Cargo built.
    pub is_stdlib: bool,
    /// Whether the query names a method rather than a symbol with a page of its own.
    pub is_method: bool,
    /// The components of the query path.
    pub components: Vec<String>,
}

impl Query {
    /// What parsing `s` gives.
    pub open spec fn parsed_from(self, s: Seq<char>) -> bool {
        let parts = query_parts(s);
        &&& self.components.deep_view() == parts
        &&& self.is_method == s.contains('.')
        &&& self.is_stdlib == (parts.len() > 0 && parts[0] == "std"@)
    }

    /// Parses a raw query.
    pub fn from(s: String) -> (r: Query)
        ensures
            r.parsed_from(s@),
    {
        let cs = chars_of(s.as_str());
        let mut comps: Vec<String> = Vec::new();
        let mut cur: Vec<char> = Vec::new();
        let mut i: usize = 0;
        assert(cs@.skip(0) =~= cs@);
        assert(comps.deep_view() + query_parts(s@) =~= query_parts(s@));
        while i < cs.len()
            invariant
                i <= cs.len(),
                cs@ == s@,
                comps.deep_view() + parts_from(cs@.skip(i as int), cur@) == query_parts(s@),
            decreases cs.len() - i,
        {
            let ghost rest = cs@.skip(i as int);
            let double = i + 1 < cs.len() && cs[i] == ':' && cs[i + 1] == ':';
            if double || cs[i] == '.' {
                let step: usize = if double { 2 } else { 1 };
                assert(rest.skip(step as int) =~= cs@.skip(i + step));
                if cur.len() > 0 {
                    let piece = string_of(&cur);
                    proof {
                        assert(comps.deep_view().push(piece@) + parts_from(
                            rest.skip(step as int),
                            Seq::empty(),
                        ) =~= comps.deep_view() + (keep_nonempty(cur@) + parts_from(
                            rest.skip(step as int),
                            Seq::empty(),
                        )));
                    }
                    comps.push(piece);
                    cur = Vec::new();
                } else {
                    proof {
                        assert(cur@ =~= Seq::<char>::empty());
                        assert(keep_nonempty(cur@) + parts_from(rest.skip(step as int), Seq::empty())
                            =~= parts_from(rest.skip(step as int), cur@));
                    }
                }
                i += step;
            } else {
                assert(rest.skip(1) =~= cs@.skip(i + 1));
                cur.push(cs[i]);
                i += 1;
            }
        }
        proof {
            assert(cs@.skip(i as int) =~= Seq::<char>::empty());
        }
        if cur.len() > 0 {
            let piece = string_of(&cur);
            proof {
                assert(comps.deep_view().push(piece@) =~= comps.deep_view() + keep_nonempty(cur@));
            }
            comps.push(piece);
        } else {
            proof {
                assert(comps.deep_view() + keep_nonempty(cur@) =~= comps.deep_view());
            }
        }
        assert(comps.deep_view() == query_parts(s@));
        assert(comps.len() > 0 ==> comps.deep_view()[0] == comps[0]@);
        let is_stdlib = comps.len() > 0 && same_text(comps[0].as_str(), "std");
        let is_method = has_char(s.as_str(), '.');
        Query { is_stdlib, is_method, components: comps }
    }

    /// The directory part of the query: every component but the last.
    pub fn dir_as_path_buf(&self) -> (r: DocPath)
        ensures
            self.components.len() > 0 ==> r@ == self.components.deep_view().drop_last(),
            self.components.len() == 0 ==> r@ == Seq::<Seq<char>>::empty(),
    {
        let mut parts: Vec<String> = Vec::new();
        let mut i: usize = 0;
        let n: usize = if self.components.len() > 0 { self.components.len() - 1 } else { 0 };
        while i < n
            invariant
                i <= n,
                n == 0 || n + 1 == self.components.len(),
                parts.deep_view() == self.components.deep_view().take(i as int),
            decreases n - i,
        {
            let ghost before = parts.deep_view();
            let c = self.components[i].clone();
            parts.push(c);
            assert(parts.deep_view() =~= before.push(c@));
            assert(parts.deep_view() =~= self.components.deep_view().take(i as int + 1));
            i += 1;
        }
        assert(self.components.len() > 0 ==> self.components.deep_view().take(n as int)
            =~= self.components.deep_view().drop_last());
        assert(self.components.len() == 0 ==> parts.deep_view() =~= Seq::<Seq<char>>::empty());
        DocPath { parts }
    }

    /// The file name that the last component would have as a page: `<last>.html`.
    pub fn filename(&self) -> (r: String)
        requires
            self.components.len() > 0,
        ensures
            r@ == self.components.deep_view().last() + ".html"@,
    {
        let mut r = self.components[self.components.len() - 1].clone();
        r.append(".html");
        r
    }

    /// The last component.
    pub fn last_as_os_string(&self) -> (r: String)
        requires
            self.components.len() > 0,
        ensures
            r@ == self.components.deep_view().last(),
    {
        self.components[self.components.len() - 1].clone()
    }
}

/// Whether the query asks for the list of the crates that have documentation
/// rather than for one page: `.` or `crate`.
pub fn is_crate_root_query(q: &str) -> (r: bool)
    ensures
        r == (q@ == "."@ || q@ == "crate"@),
{
    same_text(q, ".") || same_text(q, "crate")
}

/// No component of a parsed query is empty.
pub proof fn lemma_parts_nonempty(s: Seq<char>, cur: Seq<char>)
    ensures
        forall|i: int| 0 <= i < parts_from(s, cur).len() ==> #[trigger] parts_from(s, cur)[i].len() > 0,
    decreases s.len(),
{
    if s.len() == 0 {
        assert(parts_from(s, cur) == keep_nonempty(cur));
    } else if (s.len() >= 2 && s[0] == ':' && s[1] == ':') || s[0] == '.' {
        let step: int = if s.len() >= 2 && s[0] == ':' && s[1] == ':' { 2 } else { 1 };
        lemma_parts_nonempty(s.skip(step), Seq::empty());
        let k = keep_nonempty(cur);
        let rest = parts_from(s.skip(step), Seq::empty());
        assert(parts_from(s, cur) == k + rest);
        assert forall|i: int| 0 <= i < (k + rest).len() implies #[trigger] (k + rest)[i].len() > 0 by {
            if i >= k.len() {
                assert((k + rest)[i] == rest[i - k.len()]);
            }
        }
    } else {
        lemma_parts_nonempty(s.skip(1), cur.push(s[0]));
        assert(parts_from(s, cur) == parts_from(s.skip(1), cur.push(s[0])));
    }
}

/// Parsing a query never yields an empty component, and the query names a
/// method exactly when its text holds a `.`.
pub proof fn lemma_query_shape(s: String, q: Query)
    requires
        q.parsed_from(s@),
    ensures
        forall|i: int| 0 <= i < q.components.len() ==> #[trigger] q.components[i]@.len() > 0,
        q.is_method <==> s@.contains('.'),
{
    lemma_parts_nonempty(s@, Seq::empty());
    assert forall|i: int| 0 <= i < q.components.len() implies #[trigger] q.components[i]@.len() > 0 by {
        assert(q.components.deep_view()[i] == q.components[i]@);
    }
}

} // verus!
