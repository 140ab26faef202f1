//! The toolchain check of the PolkaVM build helper: whether the `rustc`
//! that will build the contract supports immediate-abort panics.
use vstd::prelude::*;
use crate::decode::{all_digits, digits_value, lemma_digits_value_push};
use crate::text::{chars_of, is_whitespace, is_whitespace_char, sub_chars, trim_start};


verus! {

/// The leading run of `s` that holds no whitespace.
pub open spec fn leading_word(s: Seq<char>) -> Seq<char>
    decreases s.len(),
{
    if s.len() == 0 || is_whitespace(s[0]) {
        Seq::empty()
    } else {
        seq![s[0]] + leading_word(s.subrange(1, s.len() as int))
    }
}

/// The second whitespace-separated word of `s`; empty when it has fewer.
pub open spec fn second_word(s: Seq<char>) -> Seq<char> {
    let t = trim_start(s);
    let rest = t.subrange(leading_word(t).len() as int, t.len() as int);
    leading_word(trim_start(rest))
}

/// The leading run of `s` before its first `c`.
pub open spec fn prefix_until(s: Seq<char>, c: char) -> Seq<char>
    decreases s.len(),
{
    if s.len() == 0 || s[0] == c {
        Seq::empty()
    } else {
        seq![s[0]] + prefix_until(s.subrange(1, s.len() as int), c)
    }
}

/// The first and, when there is a `.`, the second dot-separated part of a version.
pub open spec fn version_parts(v: Seq<char>) -> (Seq<char>, Option<Seq<char>>) {
    let major = prefix_until(v, '.');
    if major.len() < v.len() {
        (major, Some(prefix_until(v.subrange(major.len() + 1int, v.len() as int), '.')))
    } else {
        (major, None)
    }
}

/// What `u32::from_str` accepts: an optional `+` and at least one decimal
/// digit, of a value that fits in 32 bits.
pub open spec fn parsed_u32(s: Seq<char>) -> Option<nat> {
    let d = if s.len() > 0 && s[0] == '+' {
        s.subrange(1, s.len() as int)
    } else {
        s
    };
    if d.len() > 0 && all_digits(d) && digits_value(d) <= u32::MAX {
        Some(digits_value(d))
    } else {
        None
    }
}

/// Why the output of `rustc --version` could not be read.
#[derive(Clone, Copy, Debug, PartialEq, Eq)]
pub enum VersionError {
    /// There is no second word.
    UnexpectedFormat,
    InvalidMajor,
    MissingMinor,
    InvalidMinor,
}

fn skip_ws(s: &Vec<char>, from: usize) -> (r: usize)
    requires
        from <= s@.len(),
    ensures
        from <= r <= s@.len(),
        trim_start(s@.subrange(from as int, s@.len() as int)) == s@.subrange(r as int, s@.len() as int),
{
    let mut i = from;
    while i < s.len() && is_whitespace_char(s[i])
        invariant
            from <= i <= s@.len(),
            trim_start(s@.subrange(from as int, s@.len() as int)) == trim_start(s@.subrange(i as int, s@.len() as int)),
        decreases s@.len() - i,
    {
        assert(s@.subrange(i as int, s@.len() as int).subrange(1, s@.len() - i) =~= s@.subrange(i + 1, s@.len() as int));
        i = i + 1;
    }
    i
}

fn scan_word(s: &Vec<char>, from: usize) -> (r: usize)
    requires
        from <= s@.len(),
    ensures
        from <= r <= s@.len(),
        leading_word(s@.subrange(from as int, s@.len() as int)) == s@.subrange(from as int, r as int),
{
    let mut j = from;
    while j < s.len() && !is_whitespace_char(s[j])
        invariant
            from <= j <= s@.len(),
            leading_word(s@.subrange(from as int, s@.len() as int)) == s@.subrange(from as int, j as int) + leading_word(
                s@.subrange(j as int, s@.len() as int),
            ),
        decreases s@.len() - j,
    {
        assert(s@.subrange(j as int, s@.len() as int).subrange(1, s@.len() - j) =~= s@.subrange(j + 1, s@.len() as int));
        assert(s@.subrange(from as int, j + 1) =~= s@.subrange(from as int, j as int) + seq![s@[j as int]]);
        j = j + 1;
    }
    assert(s@.subrange(from as int, j as int) + Seq::<char>::empty() =~= s@.subrange(from as int, j as int));
    j
}

fn scan_until(s: &Vec<char>, from: usize, c: char) -> (r: usize)
    requires
        from <= s@.len(),
    ensures
        from <= r <= s@.len(),
        r < s@.len() ==> s@[r as int] == c,
        prefix_until(s@.subrange(from as int, s@.len() as int), c) == s@.subrange(from as int, r as int),
{
    let mut j = from;
    while j < s.len() && s[j] != c
        invariant
            from <= j <= s@.len(),
            prefix_until(s@.subrange(from as int, s@.len() as int), c) == s@.subrange(from as int, j as int) + prefix_until(
                s@.subrange(j as int, s@.len() as int),
                c,
            ),
        decreases s@.len() - j,
    {
        assert(s@.subrange(j as int, s@.len() as int).subrange(1, s@.len() - j) =~= s@.subrange(j + 1, s@.len() as int));
        assert(s@.subrange(from as int, j + 1) =~= s@.subrange(from as int, j as int) + seq![s@[j as int]]);
        j = j + 1;
    }
    assert(s@.subrange(from as int, j as int) + Seq::<char>::empty() =~= s@.subrange(from as int, j as int));
    j
}

/// Parses a `u32` as `u32::from_str` does.
fn parse_u32(s: &Vec<char>) -> (r: Option<u32>)
    ensures
        match parsed_u32(s@) {
            Some(v) => r == Some(v as u32),
            None => r is None,
        },
{
    let start: usize = if s.len() > 0 && s[0] == '+' { 1 } else { 0 };
    let ghost d = s@.subrange(start as int, s@.len() as int);
    assert(start == 0 ==> d =~= s@);
    if start == s.len() {
        return None;
    }
    let mut ok = true;
    let mut v: u64 = 0;
    let mut j: usize = start;
    assert(s@.subrange(start as int, start as int) =~= Seq::<char>::empty());
    while j < s.len()
        invariant
            start <= j <= s@.len(),
            ok == all_digits(s@.subrange(start as int, j as int)),
            ok ==> v as nat == (if digits_value(s@.subrange(start as int, j as int)) > u32::MAX {
                u32::MAX as nat + 1
            } else {
                digits_value(s@.subrange(start as int, j as int))
            }),
            v <= u32::MAX as u64 + 1,
        decreases s@.len() - j,
    {
        let c = s[j];
        let ghost prev = s@.subrange(start as int, j as int);
        assert(s@.subrange(start as int, j + 1) =~= prev.push(c));
        if ok && '0' <= c && c <= '9' {
            let dg = (c as u32 - '0' as u32) as u64;
            proof {
                lemma_digits_value_push(prev, c);
                let x = digits_value(prev);
                assert(x > u32::MAX ==> x * 10 + dg > u32::MAX) by (nonlinear_arith)
                    requires x >= 0, dg >= 0;
                assert forall|i: int| 0 <= i < prev.len() + 1 implies crate::ident::is_ascii_digit(#[trigger] prev.push(c)[i]) by {
                    if i < prev.len() {
                        assert(prev.push(c)[i] == prev[i]);
                    }
                }
            }
            let nv = v * 10 + dg;
            v = if nv > u32::MAX as u64 { u32::MAX as u64 + 1 } else { nv };
        } else {
            proof {
                if ok {
                    assert(!crate::ident::is_ascii_digit(prev.push(c)[prev.len() as int]));
                } else {
                    assert(!all_digits(prev));
                    let k = choose|k: int| 0 <= k < prev.len() && !crate::ident::is_ascii_digit(prev[k]);
                    assert(prev.push(c)[k] == prev[k]);
                }
            }
            ok = false;
        }
        j = j + 1;
    }
    if ok && v <= u32::MAX as u64 {
        Some(v as u32)
    } else {
        None
    }
}

/// Whether the toolchain that printed this `rustc --version` output supports
/// immediate-abort panics: version 1.92 or later.
pub fn check_immediate_abort_support(version_output: &str) -> (r: Result<bool, VersionError>)
    ensures
        ({
            let w = second_word(version_output@);
            let parts = version_parts(w);
            if w.len() == 0 {
                r == Err::<bool, VersionError>(VersionError::UnexpectedFormat)
            } else if parsed_u32(parts.0) is None {
                r == Err::<bool, VersionError>(VersionError::InvalidMajor)
            } else if parts.1 is None {
                r == Err::<bool, VersionError>(VersionError::MissingMinor)
            } else if parsed_u32(parts.1->0) is None {
                r == Err::<bool, VersionError>(VersionError::InvalidMinor)
            } else {
                let major = parsed_u32(parts.0)->0;
                let minor = parsed_u32(parts.1->0)->0;
                r == Ok::<bool, VersionError>(major > 1 || (major == 1 && minor >= 92))
            }
        }),
{
    let s = chars_of(version_output);
    let i = skip_ws(&s, 0);
    let j = scan_word(&s, i);
    let k = skip_ws(&s, j);
    let l = scan_word(&s, k);
    proof {
        assert(s@.subrange(0, s@.len() as int) =~= s@);
        let t = s@.subrange(i as int, s@.len() as int);
        assert(t.subrange(j - i, t.len() as int) =~= s@.subrange(j as int, s@.len() as int));
    }
    if k == l {
        return Err(VersionError::UnexpectedFormat);
    }
    let w = sub_chars(&s, k, l);
    assert(w@.subrange(0, w@.len() as int) =~= w@);
    let a = scan_until(&w, 0, '.');
    let major_chars = sub_chars(&w, 0, a);
    let major = match parse_u32(&major_chars) {
        Some(m) => m,
        None => return Err(VersionError::InvalidMajor),
    };
    if a == w.len() {
        return Err(VersionError::MissingMinor);
    }
    let b = scan_until(&w, a + 1, '.');
    let minor_chars = sub_chars(&w, a + 1, b);
    let minor = match parse_u32(&minor_chars) {
        Some(m) => m,
        None => return Err(VersionError::InvalidMinor),
    };
    Ok(major > 1 || (major == 1 && minor >= 92))
}

} // verus!
