//! Character-level text handling shared by the rest of the library, with the
//! mathematical meaning of each operation given as a spec function over
//! `Seq<char>`.
use vstd::prelude::*;

verus! {

/// Whether `c` has the Unicode `White_Space` property: tab, line feed,
/// vertical tab, form feed, carriage return, space, next line, no-break
/// space, ogham space mark, the spaces from en quad to hair space, line
/// separator, paragraph separator, narrow no-break space, medium
/// mathematical space and ideographic space.
pub open spec fn white_space(c: char) -> bool {
    let u = c as u32;
    (0x9 <= u && u <= 0xd) || u == 0x20 || u == 0x85 || u == 0xa0 || u == 0x1680 || (0x2000 <= u
        && u <= 0x200a) || u == 0x2028 || u == 0x2029 || u == 0x202f || u == 0x205f || u == 0x3000
}

/// Whether `c` has the Unicode `White_Space` property.
pub fn is_white(c: char) -> (r: bool)
    ensures
        r == white_space(c),
{
    let u = c as u32;
    (0x9 <= u && u <= 0xd) || u == 0x20 || u == 0x85 || u == 0xa0 || u == 0x1680 || (0x2000 <= u
        && u <= 0x200a) || u == 0x2028 || u == 0x2029 || u == 0x202f || u == 0x205f || u == 0x3000
}

/// Relies on `str::chars`: the characters of `s`, in order.
#[verifier::external_body]
pub(crate) fn chars_of(s: &str) -> (r: Vec<char>)
    ensures
        r@ == s@,
{
    s.chars().collect()
}

/// Relies on `String::push`: appends one character.
#[verifier::external_body]
pub(crate) fn push_char(s: &mut String, c: char)
    ensures
        final(s)@ == old(s)@.push(c),
{
    s.push(c)
}

/// `n` spaces.
pub open spec fn spaces(n: nat) -> Seq<char> {
    Seq::new(n, |i: int| ' ')
}

/// `s` padded on the right with spaces to at least `width` characters.
pub open spec fn pad_right(s: Seq<char>, width: nat) -> Seq<char> {
    if s.len() < width {
        s + spaces((width - s.len()) as nat)
    } else {
        s
    }
}

/// The parts joined, with `sep` between each two neighbours.
pub open spec fn join(parts: Seq<Seq<char>>, sep: Seq<char>) -> Seq<char>
    decreases parts.len(),
{
    if parts.len() == 0 {
        Seq::empty()
    } else if parts.len() == 1 {
        parts[0]
    } else {
        parts[0] + sep + join(parts.skip(1), sep)
    }
}

/// The pieces of `s` between the occurrences of `sep`, read from the left,
/// where `cur` is the piece begun before `s`.
pub open spec fn split_from(s: Seq<char>, sep: char, cur: Seq<char>) -> Seq<Seq<char>>
    decreases s.len(),
{
    if s.len() == 0 {
        seq![cur]
    } else if s[0] == sep {
        seq![cur] + split_from(s.skip(1), sep, Seq::empty())
    } else {
        split_from(s.skip(1), sep, cur.push(s[0]))
    }
}

/// The pieces of `s` between the occurrences of `sep`; there is always at
/// least one.
pub open spec fn split_on(s: Seq<char>, sep: char) -> Seq<Seq<char>> {
    split_from(s, sep, Seq::empty())
}

/// The lines of `s`, separated by line feeds.
pub open spec fn lines(s: Seq<char>) -> Seq<Seq<char>> {
    split_on(s, '\n')
}

/// A one-element sequence of `w`, or nothing when `w` is empty.
pub open spec fn keep_nonempty(w: Seq<char>) -> Seq<Seq<char>> {
    if w.len() == 0 {
        Seq::empty()
    } else {
        seq![w]
    }
}

/// The maximal runs of non-white-space characters of `s`, where `cur` is the
/// run begun before `s`.
pub open spec fn words_from(s: Seq<char>, cur: Seq<char>) -> Seq<Seq<char>>
    decreases s.len(),
{
    if s.len() == 0 {
        keep_nonempty(cur)
    } else if white_space(s[0]) {
        keep_nonempty(cur) + words_from(s.skip(1), Seq::empty())
    } else {
        words_from(s.skip(1), cur.push(s[0]))
    }
}

/// The words of `s`: its maximal runs of non-white-space characters.
pub open spec fn words(s: Seq<char>) -> Seq<Seq<char>> {
    words_from(s, Seq::empty())
}

/// `s` without its trailing white space.
pub open spec fn trim_end(s: Seq<char>) -> Seq<char>
    decreases s.len(),
{
    if s.len() > 0 && white_space(s.last()) {
        trim_end(s.drop_last())
    } else {
        s
    }
}

/// `s` without its leading white space.
pub open spec fn trim_start(s: Seq<char>) -> Seq<char>
    decreases s.len(),
{
    if s.len() > 0 && white_space(s[0]) {
        trim_start(s.skip(1))
    } else {
        s
    }
}

/// `s` without its leading and trailing white space.
pub open spec fn trim(s: Seq<char>) -> Seq<char> {
    trim_start(trim_end(s))
}

/// `s` with every occurrence of `from` replaced by `to`.
pub open spec fn replace_char(s: Seq<char>, from: char, to: char) -> Seq<char> {
    s.map_values(|c: char| if c == from { to } else { c })
}

/// `s` with the occurrences of `pat`, found from the left without overlap,
/// replaced by `rep`.
pub open spec fn replace_all(s: Seq<char>, pat: Seq<char>, rep: Seq<char>) -> Seq<char>
    decreases s.len(),
{
    if s.len() == 0 {
        s
    } else if pat.len() > 0 && pat.len() <= s.len() && s.take(pat.len() as int) == pat {
        rep + replace_all(s.skip(pat.len() as int), pat, rep)
    } else {
        seq![s[0]] + replace_all(s.skip(1), pat, rep)
    }
}

/// Whether `pat` occurs in `s` starting at position `i`.
pub open spec fn occurs_at(s: Seq<char>, pat: Seq<char>, i: int) -> bool {
    0 <= i && i + pat.len() <= s.len() && s.subrange(i, i + pat.len()) == pat
}

pub proof fn lemma_join_push(parts: Seq<Seq<char>>, sep: Seq<char>, x: Seq<char>)
    ensures
        join(parts.push(x), sep) == (if parts.len() == 0 {
            x
        } else {
            join(parts, sep) + sep + x
        }),
    decreases parts.len(),
{
    if parts.len() == 0 {
        assert(parts.push(x) =~= seq![x]);
    } else {
        let q = parts.push(x);
        assert(q.skip(1) =~= parts.skip(1).push(x));
        lemma_join_push(parts.skip(1), sep, x);
        if parts.len() == 1 {
            assert(parts.skip(1) =~= Seq::<Seq<char>>::empty());
            assert(q.skip(1) =~= seq![x]);
        } else {
            assert(join(q, sep) == parts[0] + sep + join(q.skip(1), sep));
            assert(join(q, sep) =~= join(parts, sep) + sep + x);
        }
    }
}

/// Splitting on a separator and joining with it again gives back the text.
pub proof fn lemma_join_split(s: Seq<char>, sep: char, cur: Seq<char>)
    ensures
        split_from(s, sep, cur).len() >= 1,
        join(split_from(s, sep, cur), seq![sep]) == cur + s,
    decreases s.len(),
{
    if s.len() == 0 {
        assert(cur + s =~= cur);
    } else if s[0] == sep {
        lemma_join_split(s.skip(1), sep, Seq::empty());
        let rest = split_from(s.skip(1), sep, Seq::empty());
        let all = seq![cur] + rest;
        assert(all.skip(1) =~= rest);
        assert(all[0] == cur);
        assert(join(all, seq![sep]) == cur + seq![sep] + join(rest, seq![sep]));
        assert(Seq::<char>::empty() + s.skip(1) =~= s.skip(1));
        assert(cur + seq![sep] + s.skip(1) =~= cur + s);
    } else {
        lemma_join_split(s.skip(1), sep, cur.push(s[0]));
        assert(cur.push(s[0]) + s.skip(1) =~= cur + s);
    }
}

/// Splitting text that holds no separator gives one piece.
pub proof fn lemma_split_plain(s: Seq<char>, sep: char, cur: Seq<char>)
    requires
        !s.contains(sep),
    ensures
        split_from(s, sep, cur) == seq![cur + s],
    decreases s.len(),
{
    if s.len() == 0 {
        assert(cur + s =~= cur);
    } else {
        assert(s[0] != sep);
        assert(!s.skip(1).contains(sep)) by {
            if s.skip(1).contains(sep) {
                let i = choose|i: int| 0 <= i < s.skip(1).len() && s.skip(1)[i] == sep;
                assert(s[i + 1] == sep);
            }
        }
        lemma_split_plain(s.skip(1), sep, cur.push(s[0]));
        assert(cur.push(s[0]) + s.skip(1) =~= cur + s);
    }
}

/// A separator between two texts separates their pieces.
pub proof fn lemma_split_concat(a: Seq<char>, b: Seq<char>, sep: char, cur: Seq<char>)
    ensures
        split_from(a + seq![sep] + b, sep, cur) == split_from(a, sep, cur) + split_from(
            b,
            sep,
            Seq::empty(),
        ),
    decreases a.len(),
{
    let s = a + seq![sep] + b;
    if a.len() == 0 {
        assert(s[0] == sep);
        assert(s.skip(1) =~= b);
    } else {
        assert(s[0] == a[0]);
        assert(s.skip(1) =~= a.skip(1) + seq![sep] + b);
        if a[0] == sep {
            lemma_split_concat(a.skip(1), b, sep, Seq::empty());
            assert(seq![cur] + (split_from(a.skip(1), sep, Seq::empty()) + split_from(
                b,
                sep,
                Seq::empty(),
            )) =~= seq![cur] + split_from(a.skip(1), sep, Seq::empty()) + split_from(
                b,
                sep,
                Seq::empty(),
            ));
        } else {
            lemma_split_concat(a.skip(1), b, sep, cur.push(a[0]));
        }
    }
}

/// Converts a vector of characters into a string.
pub fn string_of(cs: &Vec<char>) -> (r: String)
    ensures
        r@ == cs@,
{
    let mut r = String::new();
    let mut i: usize = 0;
    while i < cs.len()
        invariant
            i <= cs.len(),
            r@ == cs@.take(i as int),
        decreases cs.len() - i,
    {
        push_char(&mut r, cs[i]);
        assert(cs@.take(i as int).push(cs@[i as int]) =~= cs@.take(i as int + 1));
        i += 1;
    }
    assert(cs@.take(cs.len() as int) =~= cs@);
    r
}

/// Appends `n` spaces.
pub fn push_spaces(s: &mut String, n: usize)
    ensures
        final(s)@ == old(s)@ + spaces(n as nat),
{
    let ghost start = s@;
    let mut i: usize = 0;
    while i < n
        invariant
            i <= n,
            s@ == start + spaces(i as nat),
        decreases n - i,
    {
        push_char(s, ' ');
        assert(start + spaces(i as nat + 1) =~= (start + spaces(i as nat)).push(' '));
        i += 1;
    }
}

/// `s` padded on the right with spaces to `width` characters.
pub fn padded(s: &str, width: usize) -> (r: String)
    ensures
        r@ == pad_right(s@, width as nat),
{
    let mut r = s.to_owned();
    let n = s.unicode_len();
    if n < width {
        push_spaces(&mut r, width - n);
    }
    r
}

/// The strings joined, with `sep` between each two neighbours.
pub fn join_strings(parts: &Vec<String>, sep: &str) -> (r: String)
    ensures
        r@ == join(parts.deep_view(), sep@),
{
    let mut r = String::new();
    let mut i: usize = 0;
    while i < parts.len()
        invariant
            i <= parts.len(),
            r@ == join(parts.deep_view().take(i as int), sep@),
        decreases parts.len() - i,
    {
        proof {
            lemma_join_push(parts.deep_view().take(i as int), sep@, parts[i as int]@);
            assert(parts.deep_view().take(i as int + 1) =~= parts.deep_view().take(i as int).push(
                parts[i as int]@,
            ));
        }
        if i > 0 {
            r.append(sep);
        }
        r.append(parts[i].as_str());
        i += 1;
    }
    assert(parts.deep_view().take(parts.len() as int) =~= parts.deep_view());
    r
}

/// The pieces of `s` between the occurrences of `sep`.
pub fn split_string(s: &str, sep: char) -> (r: Vec<String>)
    ensures
        r.deep_view() == split_on(s@, sep),
{
    let cs = chars_of(s);
    let mut r: Vec<String> = Vec::new();
    let mut cur: Vec<char> = Vec::new();
    let mut i: usize = 0;
    assert(cs@.skip(0) =~= cs@);
    assert(r.deep_view() + split_on(s@, sep) =~= split_on(s@, sep));
    while i < cs.len()
        invariant
            i <= cs.len(),
            cs@ == s@,
            r.deep_view() + split_from(cs@.skip(i as int), sep, cur@) == split_on(s@, sep),
        decreases cs.len() - i,
    {
        let ghost rest = cs@.skip(i as int);
        assert(rest.skip(1) =~= cs@.skip(i as int + 1));
        let c = cs[i];
        if c == sep {
            let piece = string_of(&cur);
            proof {
                assert(r.deep_view().push(piece@) + split_from(rest.skip(1), sep, Seq::empty())
                    =~= r.deep_view() + (seq![cur@] + split_from(rest.skip(1), sep, Seq::empty())));
            }
            r.push(piece);
            cur = Vec::new();
        } else {
            cur.push(c);
        }
        i += 1;
    }
    let piece = string_of(&cur);
    proof {
        assert(cs@.skip(i as int) =~= Seq::<char>::empty());
        assert(r.deep_view().push(piece@) =~= r.deep_view() + seq![cur@]);
    }
    r.push(piece);
    r
}

/// The words of `s`: its maximal runs of non-white-space characters.
pub fn words_of(s: &str) -> (r: Vec<String>)
    ensures
        r.deep_view() == words(s@),
{
    let cs = chars_of(s);
    let mut r: Vec<String> = Vec::new();
    let mut cur: Vec<char> = Vec::new();
    let mut i: usize = 0;
    assert(cs@.skip(0) =~= cs@);
    assert(r.deep_view() + words(s@) =~= words(s@));
    while i < cs.len()
        invariant
            i <= cs.len(),
            cs@ == s@,
            r.deep_view() + words_from(cs@.skip(i as int), cur@) == words(s@),
        decreases cs.len() - i,
    {
        let ghost rest = cs@.skip(i as int);
        assert(rest.skip(1) =~= cs@.skip(i as int + 1));
        let c = cs[i];
        if is_white(c) {
            if cur.len() > 0 {
                let piece = string_of(&cur);
                proof {
                    assert(r.deep_view().push(piece@) + words_from(rest.skip(1), Seq::empty())
                        =~= r.deep_view() + (keep_nonempty(cur@) + words_from(
                        rest.skip(1),
                        Seq::empty(),
                    )));
                }
                r.push(piece);
                cur = Vec::new();
            } else {
                proof {
                    assert(cur@ =~= Seq::<char>::empty());
                    assert(keep_nonempty(cur@) + words_from(rest.skip(1), Seq::empty())
                        =~= words_from(rest.skip(1), cur@));
                }
            }
        } else {
            cur.push(c);
        }
        i += 1;
    }
    proof {
        assert(cs@.skip(i as int) =~= Seq::<char>::empty());
    }
    if cur.len() > 0 {
        let piece = string_of(&cur);
        proof {
            assert(r.deep_view().push(piece@) =~= r.deep_view() + keep_nonempty(cur@));
        }
        r.push(piece);
    } else {
        proof {
            assert(r.deep_view() + keep_nonempty(cur@) =~= r.deep_view());
        }
    }
    r
}

/// `s` without its trailing white space.
pub fn trimmed_end(s: &str) -> (r: String)
    ensures
        r@ == trim_end(s@),
{
    let cs = chars_of(s);
    let mut n: usize = cs.len();
    assert(cs@.take(n as int) =~= s@);
    while n > 0 && is_white(cs[n - 1])
        invariant
            n <= cs.len(),
            cs@ == s@,
            trim_end(cs@.take(n as int)) == trim_end(s@),
        decreases n,
    {
        assert(cs@.take(n as int).drop_last() =~= cs@.take(n as int - 1));
        n -= 1;
    }
    let mut out: Vec<char> = Vec::new();
    let mut i: usize = 0;
    while i < n
        invariant
            i <= n <= cs.len(),
            out@ == cs@.take(i as int),
        decreases n - i,
    {
        out.push(cs[i]);
        assert(cs@.take(i as int).push(cs@[i as int]) =~= cs@.take(i as int + 1));
        i += 1;
    }
    assert(cs@.take(s@.len() as int) =~= s@);
    string_of(&out)
}

/// `s` without its leading and trailing white space.
pub fn trimmed(s: &str) -> (r: String)
    ensures
        r@ == trim(s@),
{
    let e = trimmed_end(s);
    let cs = chars_of(e.as_str());
    let mut k: usize = 0;
    assert(cs@.skip(0) =~= cs@);
    while k < cs.len() && is_white(cs[k])
        invariant
            k <= cs.len(),
            cs@ == trim_end(s@),
            trim_start(cs@.skip(k as int)) == trim(s@),
        decreases cs.len() - k,
    {
        assert(cs@.skip(k as int).skip(1) =~= cs@.skip(k as int + 1));
        k += 1;
    }
    let mut out: Vec<char> = Vec::new();
    let mut i: usize = k;
    while i < cs.len()
        invariant
            k <= i <= cs.len(),
            out@ == cs@.subrange(k as int, i as int),
        decreases cs.len() - i,
    {
        out.push(cs[i]);
        assert(out@ =~= cs@.subrange(k as int, i as int + 1));
        i += 1;
    }
    assert(cs@.subrange(k as int, cs.len() as int) =~= cs@.skip(k as int));
    string_of(&out)
}

/// `s` with every `from` character replaced by `to`.
pub fn replaced_char(s: &str, from: char, to: char) -> (r: String)
    ensures
        r@ == replace_char(s@, from, to),
{
    let cs = chars_of(s);
    let mut out: Vec<char> = Vec::new();
    let mut i: usize = 0;
    while i < cs.len()
        invariant
            i <= cs.len(),
            cs@ == s@,
            out@ == replace_char(s@, from, to).take(i as int),
        decreases cs.len() - i,
    {
        let c = cs[i];
        if c == from {
            out.push(to);
        } else {
            out.push(c);
        }
        assert(out@ =~= replace_char(s@, from, to).take(i as int + 1));
        i += 1;
    }
    assert(replace_char(s@, from, to).take(cs.len() as int) =~= replace_char(s@, from, to));
    string_of(&out)
}

/// Whether `pat` occurs in `cs` starting at position `i`.
pub fn occurs_at_exec(cs: &Vec<char>, pat: &Vec<char>, i: usize) -> (r: bool)
    ensures
        r == occurs_at(cs@, pat@, i as int),
{
    if i > cs.len() || pat.len() > cs.len() - i {
        return false;
    }
    let mut k: usize = 0;
    while k < pat.len()
        invariant
            k <= pat.len(),
            i + pat.len() <= cs.len(),
            forall|j: int| 0 <= j < k ==> cs@[i + j] == pat@[j],
        decreases pat.len() - k,
    {
        if cs[i + k] != pat[k] {
            assert(cs@.subrange(i as int, i + pat.len())[k as int] != pat@[k as int]);
            return false;
        }
        k += 1;
    }
    assert(cs@.subrange(i as int, i + pat.len()) =~= pat@);
    true
}

/// `s` with the occurrences of `pat`, found from the left without overlap,
/// replaced by `rep`.
pub fn replaced(s: &str, pat: &str, rep: &str) -> (r: String)
    ensures
        r@ == replace_all(s@, pat@, rep@),
{
    let cs = chars_of(s);
    let ps = chars_of(pat);
    let rs = chars_of(rep);
    let mut out: Vec<char> = Vec::new();
    let mut i: usize = 0;
    assert(cs@.skip(0) =~= cs@);
    assert(out@ + replace_all(s@, pat@, rep@) =~= replace_all(s@, pat@, rep@));
    while i < cs.len()
        invariant
            i <= cs.len(),
            cs@ == s@,
            ps@ == pat@,
            rs@ == rep@,
            out@ + replace_all(cs@.skip(i as int), pat@, rep@) == replace_all(s@, pat@, rep@),
        decreases cs.len() - i,
    {
        let ghost rest = cs@.skip(i as int);
        if ps.len() > 0 && occurs_at_exec(&cs, &ps, i) {
            assert(rest.take(pat@.len() as int) =~= cs@.subrange(i as int, i + pat@.len()));
            assert(rest.skip(pat@.len() as int) =~= cs@.skip(i + pat@.len()));
            let ghost before = out@;
            let mut k: usize = 0;
            while k < rs.len()
                invariant
                    k <= rs.len(),
                    out@ == before + rs@.take(k as int),
                decreases rs.len() - k,
            {
                out.push(rs[k]);
                assert(before + rs@.take(k as int + 1) =~= (before + rs@.take(k as int)).push(
                    rs@[k as int],
                ));
                k += 1;
            }
            assert(rs@.take(rs.len() as int) =~= rs@);
            assert(before + (rep@ + replace_all(rest.skip(pat@.len() as int), pat@, rep@)) =~= (
            before + rep@) + replace_all(rest.skip(pat@.len() as int), pat@, rep@));
            i += ps.len();
        } else {
            proof {
                if pat@.len() > 0 && pat@.len() <= rest.len() {
                    assert(rest.take(pat@.len() as int) =~= cs@.subrange(
                        i as int,
                        i + pat@.len(),
                    ));
                }
                assert(rest.skip(1) =~= cs@.skip(i as int + 1));
                assert(out@.push(cs@[i as int]) + replace_all(rest.skip(1), pat@, rep@) =~= out@
                    + (seq![rest[0]] + replace_all(rest.skip(1), pat@, rep@)));
            }
            out.push(cs[i]);
            i += 1;
        }
    }
    assert(out@ + replace_all(cs@.skip(i as int), pat@, rep@) =~= out@);
    string_of(&out)
}

/// Copies of the strings of `v` from index `lo` up to `hi`.
pub fn copy_range(v: &Vec<String>, lo: usize, hi: usize) -> (r: Vec<String>)
    requires
        lo <= hi <= v.len(),
    ensures
        r.deep_view() == v.deep_view().subrange(lo as int, hi as int),
{
    let mut r: Vec<String> = Vec::new();
    let mut i: usize = lo;
    while i < hi
        invariant
            lo <= i <= hi <= v.len(),
            r.deep_view() == v.deep_view().subrange(lo as int, i as int),
        decreases hi - i,
    {
        let ghost before = r.deep_view();
        let c = v[i].clone();
        r.push(c);
        assert(r.deep_view() =~= before.push(c@));
        assert(r.deep_view() =~= v.deep_view().subrange(lo as int, i as int + 1));
        i += 1;
    }
    r
}

/// Whether the two texts are equal.
pub fn same_text(a: &str, b: &str) -> (r: bool)
    ensures
        r == (a@ == b@),
{
    a.to_owned() == b.to_owned()
}

/// Whether `c` occurs in `s`.
pub fn has_char(s: &str, c: char) -> (r: bool)
    ensures
        r == s@.contains(c),
{
    let cs = chars_of(s);
    let mut i: usize = 0;
    while i < cs.len()
        invariant
            i <= cs.len(),
            cs@ == s@,
            forall|j: int| 0 <= j < i ==> cs@[j] != c,
        decreases cs.len() - i,
    {
        if cs[i] == c {
            return true;
        }
        i += 1;
    }
    false
}

} // verus!
