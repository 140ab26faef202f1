//! The bundled example contracts: recognizing them among file paths, keeping
//! them ordered by name, and finding one by a user's query.
use vstd::prelude::*;
use vstd::seq_lib::{to_multiset_build, to_multiset_insert};
use crate::text::{chars_equal, chars_of, is_whitespace_char, string_of, sub_chars, trim_end, trim_start, trimmed};

verus! {

/// An example contract bundled with the tool: a Solidity file and its stem.
#[derive(Clone, Debug, PartialEq, Eq)]
pub struct ExampleContract {
    pub name: String,
    pub filename: String,
}

impl View for ExampleContract {
    type V = (Seq<char>, Seq<char>);

    open spec fn view(&self) -> (Seq<char>, Seq<char>) {
        (self.name@, self.filename@)
    }
}

/// Why no example could be chosen.
#[derive(Clone, Debug, PartialEq, Eq)]
pub enum ExampleError {
    /// None of the paths is a Solidity file.
    NoExamples,
    /// No example matches the query.
    UnknownExample { query: String },
}

/// The part of `s` after its last `c`; all of `s` when it holds none.
pub open spec fn after_last(s: Seq<char>, c: char) -> Seq<char>
    decreases s.len(),
{
    if s.len() == 0 || s.last() == c {
        Seq::empty()
    } else {
        after_last(s.drop_last(), c).push(s.last())
    }
}

/// The index of the last `.` of a file name, or -1.
pub open spec fn last_dot(f: Seq<char>) -> int
    decreases f.len(),
{
    if f.len() == 0 {
        -1
    } else if f.last() == '.' {
        f.len() - 1
    } else {
        last_dot(f.drop_last())
    }
}

/// The extension of a file name: what follows its last `.`, unless that dot
/// is its first character.
pub open spec fn extension_of(f: Seq<char>) -> Option<Seq<char>> {
    if last_dot(f) > 0 {
        Some(f.subrange(last_dot(f) + 1, f.len() as int))
    } else {
        None
    }
}

/// The stem of a file name: what precedes the extension's dot, or the whole name.
pub open spec fn stem_of(f: Seq<char>) -> Seq<char> {
    if last_dot(f) > 0 {
        f.subrange(0, last_dot(f))
    } else {
        f
    }
}

/// The file name of a path: what follows its last `/`, when that is neither
/// empty nor `..`. Unlike `Path::file_name`, this does not skip a trailing
/// `/`, and it reads a final `.` as a name.
pub open spec fn file_name_of(p: Seq<char>) -> Option<Seq<char>> {
    let f = after_last(p, '/');
    if f.len() == 0 || f == seq!['.', '.'] {
        None
    } else {
        Some(f)
    }
}

/// The example a path names: a Solidity file (extension `sol`), named by its stem.
pub open spec fn example_of_path(p: Seq<char>) -> Option<(Seq<char>, Seq<char>)> {
    match file_name_of(p) {
        Some(f) => if extension_of(f) == Some(seq!['s', 'o', 'l']) {
            Some((stem_of(f), f))
        } else {
            None
        },
        None => None,
    }
}

fn last_index_of(s: &Vec<char>, c: char) -> (r: Option<usize>)
    ensures
        r is None ==> forall|i: int| 0 <= i < s@.len() ==> s@[i] != c,
        r is Some ==> r->0 < s@.len() && s@[r->0 as int] == c && forall|i: int| r->0 < i < s@.len() ==> s@[i] != c,
{
    let mut k: usize = s.len();
    while k > 0
        invariant
            k <= s@.len(),
            forall|i: int| k <= i < s@.len() ==> s@[i] != c,
        decreases k,
    {
        if s[k - 1] == c {
            return Some(k - 1);
        }
        k = k - 1;
    }
    None
}

proof fn lemma_after_last(s: Seq<char>, c: char, k: int)
    requires
        -1 <= k < s.len(),
        k >= 0 ==> s[k] == c,
        forall|i: int| k < i < s.len() ==> s[i] != c,
    ensures
        after_last(s, c) == s.subrange(k + 1, s.len() as int),
    decreases s.len(),
{
    if s.len() > 0 && s.last() != c {
        lemma_after_last(s.drop_last(), c, k);
        assert(s.subrange(k + 1, s.len() as int) =~= s.drop_last().subrange(k + 1, s.len() - 1).push(s.last()));
    } else if s.len() > 0 {
        assert(k == s.len() - 1);
    }
}

proof fn lemma_last_dot(f: Seq<char>, k: int)
    requires
        -1 <= k < f.len(),
        k >= 0 ==> f[k] == '.',
        forall|i: int| k < i < f.len() ==> f[i] != '.',
    ensures
        last_dot(f) == k,
    decreases f.len(),
{
    if f.len() > 0 && f.last() != '.' {
        lemma_last_dot(f.drop_last(), k);
    }
}

fn file_name_chars(path: &str) -> (r: Option<Vec<char>>)
    ensures
        match file_name_of(path@) {
            Some(f) => r is Some && r->0@ == f,
            None => r is None,
        },
{
    let p = chars_of(path);
    let n = p.len();
    let start = match last_index_of(&p, '/') {
        Some(k) => k + 1,
        None => 0,
    };
    proof {
        lemma_after_last(p@, '/', start - 1);
    }
    let f = sub_chars(&p, start, p.len());
    if f.len() == 0 || (f.len() == 2 && f[0] == '.' && f[1] == '.') {
        proof {
            if f@.len() == 2 {
                assert(f@ =~= seq!['.', '.']);
            }
        }
        return None;
    }
    proof {
        if f@ == seq!['.', '.'] {
            assert(f@[0] == '.' && f@[1] == '.');
        }
    }
    Some(f)
}

/// The stem of the path's file name as `file_name_of` reads it: the part
/// before its last `.`, or the whole name when that dot is its first character
/// or it has none.
pub(crate) fn file_stem(path: &str) -> (r: Option<String>)
    ensures
        match file_name_of(path@) {
            Some(f) => r is Some && r->0@ == stem_of(f),
            None => r is None,
        },
{
    let f = match file_name_chars(path) {
        Some(f) => f,
        None => return None,
    };
    let dot = last_index_of(&f, '.');
    proof {
        match dot {
            Some(d) => lemma_last_dot(f@, d as int),
            None => lemma_last_dot(f@, -1),
        }
    }
    match dot {
        Some(d) => {
            if d == 0 {
                Some(string_of(&f))
            } else {
                Some(string_of(&sub_chars(&f, 0, d)))
            }
        },
        None => Some(string_of(&f)),
    }
}

impl ExampleContract {
    /// The example that a path names, if it is a Solidity file. The path is
    /// split at its last `/`.
    pub fn from_path(path: &str) -> (r: Option<ExampleContract>)
        ensures
            match example_of_path(path@) {
                Some(v) => r is Some && r->0@ == v,
                None => r is None,
            },
    {
        let f = match file_name_chars(path) {
            Some(f) => f,
            None => return None,
        };
        let dot = last_index_of(&f, '.');
        proof {
            match dot {
                Some(d) => lemma_last_dot(f@, d as int),
                None => lemma_last_dot(f@, -1),
            }
        }
        match dot {
            Some(d) => {
                if d == 0 {
                    return None;
                }
                let ext = sub_chars(&f, d + 1, f.len());
                let sol: Vec<char> = vec!['s', 'o', 'l'];
                if chars_equal(&ext, &sol) {
                    let stem = sub_chars(&f, 0, d);
                    Some(ExampleContract { name: string_of(&stem), filename: string_of(&f) })
                } else {
                    None
                }
            },
            None => None,
        }
    }
}

/// ASCII letters lowered; every other character kept.
pub open spec fn ascii_lower(s: Seq<char>) -> Seq<char> {
    s.map_values(|c: char| if 'A' <= c && c <= 'Z' { ((c as int) + 32) as char } else { c })
}

/// An example matches a query that, trimmed, equals its name or its file name
/// up to ASCII case.
pub open spec fn matches_query(e: (Seq<char>, Seq<char>), q: Seq<char>) -> bool {
    let query = ascii_lower(trimmed(q));
    query == ascii_lower(e.0) || query == ascii_lower(e.1)
}

fn trim_chars(s: &Vec<char>) -> (r: Vec<char>)
    ensures
        r@ == trimmed(s@),
{
    let mut i: usize = 0;
    assert(s@.subrange(0, s@.len() as int) =~= s@);
    while i < s.len() && is_whitespace_char(s[i])
        invariant
            i <= s@.len(),
            trim_start(s@) == trim_start(s@.subrange(i as int, s@.len() as int)),
        decreases s@.len() - i,
    {
        assert(s@.subrange(i as int, s@.len() as int).subrange(1, s@.len() - i) =~= s@.subrange(i + 1, s@.len() as int));
        i = i + 1;
    }
    let ghost t = s@.subrange(i as int, s@.len() as int);
    assert(trim_start(t) == t);
    let mut j: usize = s.len();
    while j > i && is_whitespace_char(s[j - 1])
        invariant
            i <= j <= s@.len(),
            trim_end(t) == trim_end(s@.subrange(i as int, j as int)),
        decreases j,
    {
        assert(s@.subrange(i as int, j as int).drop_last() =~= s@.subrange(i as int, j - 1));
        j = j - 1;
    }
    sub_chars(s, i, j)
}

fn lower_chars(s: &Vec<char>) -> (r: Vec<char>)
    ensures
        r@ == ascii_lower(s@),
{
    let mut out: Vec<char> = Vec::new();
    let mut k: usize = 0;
    while k < s.len()
        invariant
            k <= s@.len(),
            out@ == ascii_lower(s@.subrange(0, k as int)),
        decreases s@.len() - k,
    {
        let c = s[k];
        let l = if 'A' <= c && c <= 'Z' {
            ((c as u32) + 32) as u8 as char
        } else {
            c
        };
        out.push(l);
        k = k + 1;
        assert(out@ =~= ascii_lower(s@.subrange(0, k as int)));
    }
    assert(s@.subrange(0, s@.len() as int) =~= s@);
    out
}

impl ExampleContract {
    /// Whether the trimmed query names this example, ignoring ASCII case.
    pub fn matches(&self, query: &str) -> (r: bool)
        ensures
            r == matches_query(self@, query@),
    {
        let q = lower_chars(&trim_chars(&chars_of(query)));
        let name = lower_chars(&chars_of(self.name.as_str()));
        let filename = lower_chars(&chars_of(self.filename.as_str()));
        chars_equal(&q, &name) || chars_equal(&q, &filename)
    }
}

/// Finds the first example that matches the query.
pub fn find_example(examples: &[ExampleContract], query: &str) -> (r: Result<ExampleContract, ExampleError>)
    ensures
        r is Err <==> forall|i: int| 0 <= i < examples@.len() ==> !matches_query(#[trigger] examples@[i]@, query@),
        r matches Err(ExampleError::UnknownExample { query: q }) ==> q@ == query@,
        r is Err ==> r->Err_0 is UnknownExample,
        r matches Ok(e) ==> exists|j: int| 0 <= j < examples@.len() && e@ == (#[trigger] examples@[j])@
            && matches_query(e@, query@) && forall|i: int| 0 <= i < j ==> !matches_query(#[trigger] examples@[i]@, query@),
{
    let mut i: usize = 0;
    while i < examples.len()
        invariant
            i <= examples@.len(),
            forall|k: int| 0 <= k < i ==> !matches_query(#[trigger] examples@[k]@, query@),
        decreases examples@.len() - i,
    {
        if examples[i].matches(query) {
            let e = ExampleContract { name: examples[i].name.clone(), filename: examples[i].filename.clone() };
            assert(e@ == examples@[i as int]@);
            return Ok(e);
        }
        i = i + 1;
    }
    Err(ExampleError::UnknownExample { query: string_of(&chars_of(query)) })
}

/// `a` sorts strictly before `b`: compared character by character, a proper
/// prefix first. On UTF-8 text this is the byte order that `String` sorts by.
pub open spec fn name_lt(a: Seq<char>, b: Seq<char>) -> bool
    decreases a.len(),
{
    if a.len() == 0 {
        b.len() > 0
    } else if b.len() == 0 {
        false
    } else if a[0] != b[0] {
        a[0] < b[0]
    } else {
        name_lt(a.subrange(1, a.len() as int), b.subrange(1, b.len() as int))
    }
}

proof fn lemma_name_lt_asym(a: Seq<char>, b: Seq<char>)
    requires
        name_lt(a, b),
    ensures
        !name_lt(b, a),
    decreases a.len(),
{
    if a.len() > 0 && b.len() > 0 && a[0] == b[0] {
        lemma_name_lt_asym(a.subrange(1, a.len() as int), b.subrange(1, b.len() as int));
    }
}

proof fn lemma_name_lt_trans(a: Seq<char>, b: Seq<char>, c: Seq<char>)
    requires
        name_lt(a, b),
        name_lt(b, c),
    ensures
        name_lt(a, c),
    decreases a.len(),
{
    if a.len() > 0 && a[0] == b[0] && b[0] == c[0] {
        lemma_name_lt_trans(
            a.subrange(1, a.len() as int),
            b.subrange(1, b.len() as int),
            c.subrange(1, c.len() as int),
        );
    }
}

fn chars_lt(a: &Vec<char>, b: &Vec<char>) -> (r: bool)
    ensures
        r == name_lt(a@, b@),
{
    let mut k: usize = 0;
    assert(a@.subrange(0, a@.len() as int) =~= a@);
    assert(b@.subrange(0, b@.len() as int) =~= b@);
    while k < a.len() && k < b.len()
        invariant
            k <= a@.len(),
            k <= b@.len(),
            name_lt(a@, b@) == name_lt(a@.subrange(k as int, a@.len() as int), b@.subrange(k as int, b@.len() as int)),
        decreases a@.len() - k,
    {
        if a[k] != b[k] {
            return a[k] < b[k];
        }
        assert(a@.subrange(k as int, a@.len() as int).subrange(1, a@.len() - k) =~= a@.subrange(k + 1, a@.len() as int));
        assert(b@.subrange(k as int, b@.len() as int).subrange(1, b@.len() - k) =~= b@.subrange(k + 1, b@.len() as int));
        k = k + 1;
    }
    k >= a.len() && k < b.len()
}

/// The examples in order of name.
pub open spec fn sorted_by_name(s: Seq<(Seq<char>, Seq<char>)>) -> bool {
    forall|i: int, j: int| 0 <= i < j < s.len() ==> !name_lt(#[trigger] s[j].0, #[trigger] s[i].0)
}

/// The examples that the paths name, in the order of the paths.
pub open spec fn examples_of_paths(paths: Seq<String>) -> Seq<(Seq<char>, Seq<char>)>
    decreases paths.len(),
{
    if paths.len() == 0 {
        Seq::empty()
    } else {
        let rest = examples_of_paths(paths.drop_last());
        match example_of_path(paths.last()@) {
            Some(e) => rest.push(e),
            None => rest,
        }
    }
}

pub open spec fn views(v: Seq<ExampleContract>) -> Seq<(Seq<char>, Seq<char>)> {
    v.map_values(|e: ExampleContract| e@)
}

/// Recognizes the examples among the paths of the bundled files and orders
/// them by name; fails when there is none.
pub fn load_examples(paths: &[String]) -> (r: Result<Vec<ExampleContract>, ExampleError>)
    ensures
        r is Err <==> examples_of_paths(paths@).len() == 0,
        r is Err ==> r->Err_0 is NoExamples,
        r matches Ok(v) ==> views(v@).to_multiset() == examples_of_paths(paths@).to_multiset()
            && sorted_by_name(views(v@)),
{
    let mut found: Vec<ExampleContract> = Vec::new();
    let mut i: usize = 0;
    while i < paths.len()
        invariant
            i <= paths@.len(),
            views(found@) == examples_of_paths(paths@.take(i as int)),
        decreases paths@.len() - i,
    {
        let e = ExampleContract::from_path(paths[i].as_str());
        proof {
            assert(paths@.take(i + 1).drop_last() =~= paths@.take(i as int));
        }
        match e {
            Some(e) => {
                found.push(e);
                assert(views(found@) =~= examples_of_paths(paths@.take(i + 1)));
            },
            None => {},
        }
        i = i + 1;
    }
    assert(paths@.take(paths@.len() as int) =~= paths@);
    if found.len() == 0 {
        return Err(ExampleError::NoExamples);
    }
    let mut out: Vec<ExampleContract> = Vec::new();
    let mut k: usize = 0;
    assert(views(out@) =~= views(found@).take(0));
    while k < found.len()
        invariant
            k <= found@.len(),
            views(out@).to_multiset() == views(found@).take(k as int).to_multiset(),
            sorted_by_name(views(out@)),
        decreases found@.len() - k,
    {
        let x = ExampleContract { name: found[k].name.clone(), filename: found[k].filename.clone() };
        let xn = chars_of(x.name.as_str());
        let mut p: usize = 0;
        let mut placed = false;
        while p < out.len() && !placed
            invariant
                p <= out@.len(),
                xn@ == x.name@,
                placed ==> p < out@.len() && name_lt(x.name@, out@[p as int].name@),
                forall|q: int| 0 <= q < p ==> !name_lt(x.name@, #[trigger] out@[q].name@),
            decreases out@.len() - p + (if placed { 0int } else { 1int }),
        {
            let yn = chars_of(out[p].name.as_str());
            if chars_lt(&xn, &yn) {
                placed = true;
            } else {
                p = p + 1;
            }
        }
        let ghost old_out = out@;
        out.insert(p, x);
        proof {
            let ov = views(old_out);
            assert(views(out@) =~= ov.insert(p as int, x@));
            to_multiset_insert(ov, p as int, x@);
            let fv = views(found@);
            assert(fv.take(k + 1) =~= fv.take(k as int).push(x@));
            to_multiset_build(fv.take(k as int), x@);
            let nv = views(out@);
            assert forall|a: int, b: int| 0 <= a < b < nv.len() implies !name_lt(#[trigger] nv[b].0, #[trigger] nv[a].0) by {
                if a < p && b == p {
                } else if a == p && b > p {
                    // x sorts no later than every element that was at or after p.
                    assert(p < old_out.len());
                    assert(name_lt(x.name@, old_out[p as int].name@));
                    if name_lt(nv[b].0, x.name@) {
                        if b - 1 > p {
                            assert(!name_lt(ov[b - 1].0, ov[p as int].0));
                            lemma_name_lt_trans(nv[b].0, x.name@, old_out[p as int].name@);
                        } else {
                            lemma_name_lt_asym(nv[b].0, x.name@);
                        }
                    }
                } else if a < p && b > p {
                    assert(!name_lt(ov[b - 1].0, ov[a].0));
                } else if a < p && b < p {
                    assert(!name_lt(ov[b].0, ov[a].0));
                } else {
                    assert(!name_lt(ov[b - 1].0, ov[a - 1].0));
                }
            }
        }
        k = k + 1;
    }
    assert(views(found@).take(found@.len() as int) =~= views(found@));
    Ok(out)
}

} // verus!
