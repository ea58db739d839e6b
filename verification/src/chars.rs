//! Conversions between strings and character vectors, and the small scanning
//! helpers over character sequences that the parsers and renderers share:
//! searching, slicing, appending, whitespace trimming and line splitting.

use vstd::prelude::*;
use vstd::string::StrSliceExecFns;

verus! {

/// Collects the characters of a string into a vector, one `char` per element.
pub fn str_to_chars(s: &str) -> (r: Vec<char>)
    ensures
        r@ == s@,
{
    let n = s.unicode_len();
    let mut r: Vec<char> = Vec::new();
    let mut i: usize = 0;
    while i < n
        invariant
            n == s@.len(),
            i <= n,
            r@ == s@.subrange(0, i as int),
        decreases n - i,
    {
        r.push(s.get_char(i));
        i = i + 1;
        proof {
            assert(r@ =~= s@.subrange(0, i as int));
        }
    }
    proof {
        assert(r@ =~= s@);
    }
    r
}

/// Relies on `String: FromIterator<char>` (via `Iterator::collect`): the
/// collected string consists of exactly the characters of the iterator,
/// in order.
#[verifier::external_body]
pub fn chars_to_string(v: &Vec<char>) -> (r: String)
    ensures
        r@ == v@,
{
    v.iter().collect()
}

/// Turns each character vector into a string, keeping order and contents.
pub fn vecs_to_strings(vs: &Vec<Vec<char>>) -> (r: Vec<String>)
    ensures
        r.deep_view() == vs.deep_view(),
{
    let mut r: Vec<String> = Vec::new();
    let mut i: usize = 0;
    while i < vs.len()
        invariant
            i <= vs.len(),
            r.deep_view() == vs.deep_view().subrange(0, i as int),
        decreases vs.len() - i,
    {
        let ghost r_dv = r.deep_view();
        r.push(chars_to_string(&vs[i]));
        i = i + 1;
        proof {
            assert(r.deep_view() =~~= r_dv.push(vs.deep_view()[i - 1]));
            assert(r.deep_view() =~~= vs.deep_view().subrange(0, i as int));
        }
    }
    proof {
        assert(vs.deep_view().subrange(0, vs.deep_view().len() as int) =~~= vs.deep_view());
    }
    r
}

/// Copies the characters of `v` between `from` and `to` into a fresh vector.
pub fn sub_vec(v: &Vec<char>, from: usize, to: usize) -> (r: Vec<char>)
    requires
        from <= to,
        to <= v.len(),
    ensures
        r@ == v@.subrange(from as int, to as int),
{
    let mut r: Vec<char> = Vec::new();
    let mut i: usize = from;
    while i < to
        invariant
            from <= i <= to,
            to <= v.len(),
            r@ == v@.subrange(from as int, i as int),
        decreases to - i,
    {
        r.push(v[i]);
        i = i + 1;
        proof {
            assert(r@ =~= v@.subrange(from as int, i as int));
        }
    }
    r
}

/// Appends the characters of `v` to `out`.
pub fn append_vec(out: &mut Vec<char>, v: &Vec<char>)
    ensures
        final(out)@ == old(out)@ + v@,
{
    let mut i: usize = 0;
    while i < v.len()
        invariant
            i <= v.len(),
            out@ == old(out)@ + v@.subrange(0, i as int),
        decreases v.len() - i,
    {
        out.push(v[i]);
        i = i + 1;
        proof {
            assert(old(out)@ + v@.subrange(0, i as int) =~= (old(out)@ + v@.subrange(
                0,
                i as int - 1,
            )).push(v@[i as int - 1]));
        }
    }
    proof {
        assert(old(out)@ + v@.subrange(0, v@.len() as int) =~= old(out)@ + v@);
    }
}

/// Appends the characters of the string `s` to `out`.
pub fn append_str(out: &mut Vec<char>, s: &str)
    ensures
        final(out)@ == old(out)@ + s@,
{
    let n = s.unicode_len();
    let mut i: usize = 0;
    while i < n
        invariant
            n == s@.len(),
            i <= n,
            out@ == old(out)@ + s@.subrange(0, i as int),
        decreases n - i,
    {
        out.push(s.get_char(i));
        i = i + 1;
        proof {
            assert(old(out)@ + s@.subrange(0, i as int) =~= (old(out)@ + s@.subrange(
                0,
                i as int - 1,
            )).push(s@[i as int - 1]));
        }
    }
    proof {
        assert(old(out)@ + s@.subrange(0, n as int) =~= old(out)@ + s@);
    }
}

/// Whether the characters of `v` are exactly those of the string `s`.
pub fn chars_eq_str(v: &Vec<char>, s: &str) -> (r: bool)
    ensures
        r == (v@ == s@),
{
    let n = s.unicode_len();
    if v.len() != n {
        return false;
    }
    let mut i: usize = 0;
    while i < n
        invariant
            n == s@.len(),
            v@.len() == n,
            i <= n,
            forall|j: int| 0 <= j < i ==> v@[j] == s@[j],
        decreases n - i,
    {
        if v[i] != s.get_char(i) {
            return false;
        }
        i = i + 1;
    }
    proof {
        assert(v@ =~= s@);
    }
    true
}

/// The position of the first occurrence of `c` in `s` at or after `from`.
pub open spec fn find_from(s: Seq<char>, from: int, c: char) -> Option<int>
    decreases s.len() - from,
{
    if from < 0 || from >= s.len() {
        None
    } else if s[from] == c {
        Some(from)
    } else {
        find_from(s, from + 1, c)
    }
}

/// What `find_from` returns: the first match at or after `from`, if any.
pub proof fn lemma_find_from(s: Seq<char>, from: int, c: char)
    requires
        0 <= from,
    ensures
        match find_from(s, from, c) {
            Some(i) => from <= i < s.len() && s[i] == c && (forall|j: int|
                from <= j < i ==> s[j] != c),
            None => forall|j: int| from <= j < s.len() ==> s[j] != c,
        },
    decreases s.len() - from,
{
    if from < s.len() && s[from] != c {
        lemma_find_from(s, from + 1, c);
    }
}

/// Searches `v` for the first occurrence of `c` at or after `from`.
pub fn find_char(v: &Vec<char>, from: usize, c: char) -> (r: Option<usize>)
    ensures
        match r {
            Some(i) => find_from(v@, from as int, c) == Some(i as int),
            None => find_from(v@, from as int, c) is None,
        },
{
    let mut i: usize = from;
    while i < v.len()
        invariant
            from <= i,
            find_from(v@, from as int, c) == find_from(v@, i as int, c),
        decreases v.len() - i,
    {
        if v[i] == c {
            return Some(i);
        }
        i = i + 1;
    }
    None
}

/// The position of the first occurrence of the two-character pattern `a b`
/// in `s` at or after `from`.
pub open spec fn find2_from(s: Seq<char>, from: int, a: char, b: char) -> Option<int>
    decreases s.len() - from,
{
    if from < 0 || from + 1 >= s.len() {
        None
    } else if s[from] == a && s[from + 1] == b {
        Some(from)
    } else {
        find2_from(s, from + 1, a, b)
    }
}

/// What `find2_from` returns: the first match at or after `from`, if any.
pub proof fn lemma_find2_from(s: Seq<char>, from: int, a: char, b: char)
    requires
        0 <= from,
    ensures
        match find2_from(s, from, a, b) {
            Some(i) => from <= i && i + 1 < s.len() && s[i] == a && s[i + 1] == b && (forall|j: int|
                from <= j < i ==> !(#[trigger] s[j] == a && s[j + 1] == b)),
            None => forall|j: int|
                from <= j && j + 1 < s.len() ==> !(#[trigger] s[j] == a && s[j + 1] == b),
        },
    decreases s.len() - from,
{
    if from + 1 < s.len() && !(s[from] == a && s[from + 1] == b) {
        lemma_find2_from(s, from + 1, a, b);
    }
}

/// Searches `v` for the first occurrence of the pattern `a b` at or after `from`.
pub fn find_pair(v: &Vec<char>, from: usize, a: char, b: char) -> (r: Option<usize>)
    ensures
        match r {
            Some(i) => find2_from(v@, from as int, a, b) == Some(i as int),
            None => find2_from(v@, from as int, a, b) is None,
        },
{
    let mut i: usize = from;
    while i < v.len()
        invariant
            from <= i,
            find2_from(v@, from as int, a, b) == find2_from(v@, i as int, a, b),
        decreases v.len() - i,
    {
        if i + 1 < v.len() && v[i] == a && v[i + 1] == b {
            return Some(i);
        }
        i = i + 1;
    }
    None
}

/// The characters that `char::is_whitespace` accepts: the White_Space set.
pub open spec fn spec_is_whitespace(c: char) -> bool {
    c == '\u{0009}' || c == '\u{000A}' || c == '\u{000B}' || c == '\u{000C}' || c == '\u{000D}'
        || c == ' ' || c == '\u{0085}' || c == '\u{00A0}' || c == '\u{1680}' || ('\u{2000}' <= c
        && c <= '\u{200A}') || c == '\u{2028}' || c == '\u{2029}' || c == '\u{202F}'
        || c == '\u{205F}' || c == '\u{3000}'
}

/// Whether `c` has the Unicode White_Space property.
pub fn is_whitespace_char(c: char) -> (r: bool)
    ensures
        r == spec_is_whitespace(c),
{
    c == '\u{0009}' || c == '\u{000A}' || c == '\u{000B}' || c == '\u{000C}' || c == '\u{000D}'
        || c == ' ' || c == '\u{0085}' || c == '\u{00A0}' || c == '\u{1680}' || ('\u{2000}' <= c
        && c <= '\u{200A}') || c == '\u{2028}' || c == '\u{2029}' || c == '\u{202F}'
        || c == '\u{205F}' || c == '\u{3000}'
}

/// `s` without its leading whitespace.
pub open spec fn trim_start_rec(s: Seq<char>) -> Seq<char>
    decreases s.len(),
{
    if s.len() > 0 && spec_is_whitespace(s[0]) {
        trim_start_rec(s.drop_first())
    } else {
        s
    }
}

/// `s` without its trailing whitespace.
pub open spec fn trim_end_rec(s: Seq<char>) -> Seq<char>
    decreases s.len(),
{
    if s.len() > 0 && spec_is_whitespace(s.last()) {
        trim_end_rec(s.drop_last())
    } else {
        s
    }
}

/// `s` without leading and trailing whitespace, as `str::trim` strips it.
pub open spec fn spec_trim(s: Seq<char>) -> Seq<char> {
    trim_end_rec(trim_start_rec(s))
}

/// Strips leading and trailing whitespace from `v`.
pub fn trim_chars(v: &Vec<char>) -> (r: Vec<char>)
    ensures
        r@ == spec_trim(v@),
{
    proof {
        assert(v@.subrange(0, v@.len() as int) =~= v@);
    }
    let mut i: usize = 0;
    while i < v.len() && is_whitespace_char(v[i])
        invariant
            i <= v.len(),
            trim_start_rec(v@) == trim_start_rec(v@.subrange(i as int, v@.len() as int)),
        decreases v.len() - i,
    {
        proof {
            assert(v@.subrange(i as int, v@.len() as int).drop_first() =~= v@.subrange(
                i as int + 1,
                v@.len() as int,
            ));
        }
        i = i + 1;
    }
    proof {
        assert(trim_start_rec(v@) =~= v@.subrange(i as int, v@.len() as int));
    }
    let mut j: usize = v.len();
    while j > i && is_whitespace_char(v[j - 1])
        invariant
            i <= j <= v.len(),
            trim_start_rec(v@) == v@.subrange(i as int, v@.len() as int),
            trim_end_rec(v@.subrange(i as int, v@.len() as int)) == trim_end_rec(
                v@.subrange(i as int, j as int),
            ),
        decreases j,
    {
        proof {
            assert(v@.subrange(i as int, j as int).drop_last() =~= v@.subrange(
                i as int,
                j as int - 1,
            ));
        }
        j = j - 1;
    }
    proof {
        assert(trim_end_rec(v@.subrange(i as int, j as int)) =~= v@.subrange(i as int, j as int));
    }
    sub_vec(v, i, j)
}

/// The lines of `s`, split as `str::lines` splits them: at each newline,
/// with a carriage return immediately before a newline stripped, and with
/// an optional final line ending.
pub open spec fn spec_lines(s: Seq<char>) -> Seq<Seq<char>>
    decreases s.len(),
    via spec_lines_decreases
{
    if s.len() == 0 {
        Seq::empty()
    } else {
        match find_from(s, 0, '\n') {
            None => seq![s],
            Some(i) => seq![strip_cr(s.subrange(0, i))] + spec_lines(
                s.subrange(i + 1, s.len() as int),
            ),
        }
    }
}

#[via_fn]
proof fn spec_lines_decreases(s: Seq<char>) {
    lemma_find_from(s, 0, '\n');
}

/// A line body with one trailing carriage return removed, if present.
pub open spec fn strip_cr(l: Seq<char>) -> Seq<char> {
    if l.len() > 0 && l.last() == '\r' {
        l.drop_last()
    } else {
        l
    }
}

/// Splits `v` into lines, as `spec_lines` describes.
pub fn split_lines(v: &Vec<char>) -> (r: Vec<Vec<char>>)
    ensures
        r.deep_view() == spec_lines(v@),
{
    let mut r: Vec<Vec<char>> = Vec::new();
    let mut pos: usize = 0;
    proof {
        assert(v@.subrange(0, v@.len() as int) =~= v@);
        assert(r.deep_view() + spec_lines(v@) =~= spec_lines(v@));
    }
    loop
        invariant
            pos <= v.len(),
            spec_lines(v@) == r.deep_view() + spec_lines(v@.subrange(pos as int, v@.len() as int)),
        decreases v.len() - pos,
    {
        let ghost suffix = v@.subrange(pos as int, v@.len() as int);
        if pos == v.len() {
            proof {
                assert(suffix =~= Seq::<char>::empty());
                assert(r.deep_view() + spec_lines(suffix) =~= r.deep_view());
            }
            return r;
        }
        match find_char(v, pos, '\n') {
            None => {
                proof {
                    lemma_find_from(v@, pos as int, '\n');
                    lemma_find_from(suffix, 0, '\n');
                    if find_from(suffix, 0, '\n') is Some {
                        let k = find_from(suffix, 0, '\n')->0;
                        assert(suffix[k] == v@[pos + k]);
                        assert(false);
                    }
                    assert(spec_lines(suffix) =~= seq![suffix]);
                }
                let ghost prev_dv = r.deep_view();
                let line = sub_vec(v, pos, v.len());
                r.push(line);
                proof {
                    assert(line@ =~= suffix);
                    assert(r.deep_view() =~~= prev_dv + seq![suffix]);
                }
                return r;
            },
            Some(n) => {
                proof {
                    lemma_find_from(v@, pos as int, '\n');
                }
                let mut end = n;
                if n > pos && v[n - 1] == '\r' {
                    end = n - 1;
                }
                let ghost prev_dv = r.deep_view();
                let line = sub_vec(v, pos, end);
                r.push(line);
                proof {
                    // the first newline of the suffix is the one found at `n`
                    lemma_find_from(suffix, 0, '\n');
                    let nrel = n - pos;
                    match find_from(suffix, 0, '\n') {
                        None => {
                            assert(suffix[nrel] == v@[n as int]);
                            assert(false);
                        },
                        Some(k) => {
                            assert(suffix[k] == v@[pos + k]);
                            if k < nrel {
                                assert(v@[pos + k] == '\n');
                                assert(false);
                            }
                            if k > nrel {
                                assert(suffix[nrel] == v@[n as int]);
                                assert(false);
                            }
                        },
                    }
                    assert(find_from(suffix, 0, '\n') == Some(nrel));
                    assert(suffix.subrange(0, nrel) =~= v@.subrange(pos as int, n as int));
                    assert(strip_cr(v@.subrange(pos as int, n as int)) =~= line@) by {
                        if n > pos && v@[n - 1] == '\r' {
                            assert(v@.subrange(pos as int, n as int).last() == '\r');
                            assert(v@.subrange(pos as int, n as int).drop_last() =~= v@.subrange(
                                pos as int,
                                n as int - 1,
                            ));
                        }
                    }
                    assert(suffix.subrange(nrel + 1, suffix.len() as int) =~= v@.subrange(
                        n + 1,
                        v@.len() as int,
                    ));
                    assert(spec_lines(suffix) == seq![line@] + spec_lines(
                        v@.subrange(n + 1, v@.len() as int),
                    ));
                    assert(r.deep_view() =~~= prev_dv.push(line@));
                    assert(prev_dv.push(line@) + spec_lines(v@.subrange(n + 1, v@.len() as int))
                        =~= prev_dv + spec_lines(suffix));
                }
                pos = n + 1;
            },
        }
    }
}

} // verus!
