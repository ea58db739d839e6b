//! The delimiter splitter used for the `tags` directive: splits on a
//! delimiter character, except inside a pair of quote characters, where the
//! delimiter is literal. Quote characters are kept in the tokens, and empty
//! tokens are dropped.

use vstd::prelude::*;
use crate::chars::{chars_to_string, str_to_chars};

verus! {

/// The splitter state after reading `s`: whether a quote is open, the
/// partial token being collected, and the finished tokens.
pub open spec fn split_state(s: Seq<char>, delim: char) -> (bool, Seq<char>, Seq<Seq<char>>)
    decreases s.len(),
{
    if s.len() == 0 {
        (false, Seq::empty(), Seq::empty())
    } else {
        let (in_str, cw, acc) = split_state(s.drop_last(), delim);
        let ch = s.last();
        if ch == delim {
            if in_str {
                (in_str, cw.push(ch), acc)
            } else if cw.len() > 0 {
                (in_str, Seq::empty(), acc.push(cw))
            } else {
                (in_str, cw, acc)
            }
        } else if ch == '"' {
            (!in_str, cw.push('"'), acc)
        } else {
            (in_str, cw.push(ch), acc)
        }
    }
}

/// The tokens that splitting `s` on `delim` yields: the finished tokens,
/// followed by the final partial token if it is not empty.
pub open spec fn spec_split(s: Seq<char>, delim: char) -> Seq<Seq<char>> {
    let (in_str, cw, acc) = split_state(s, delim);
    if cw.len() > 0 {
        acc.push(cw)
    } else {
        acc
    }
}

/// Splits the characters of `v` on `delim`, respecting quotes.
pub(crate) fn split_chars(v: &Vec<char>, delim: char) -> (r: Vec<Vec<char>>)
    ensures
        r.deep_view() == spec_split(v@, delim),
{
    let mut acc: Vec<Vec<char>> = Vec::new();
    let mut cw: Vec<char> = Vec::new();
    let mut in_str: bool = false;
    let mut i: usize = 0;
    proof {
        assert(v@.subrange(0, 0) =~= Seq::<char>::empty());
        assert(acc.deep_view() =~= Seq::<Seq<char>>::empty());
    }
    while i < v.len()
        invariant
            i <= v.len(),
            split_state(v@.subrange(0, i as int), delim) == (in_str, cw@, acc.deep_view()),
        decreases v.len() - i,
    {
        let ghost prefix = v@.subrange(0, i as int);
        let ghost acc_dv = acc.deep_view();
        let ch = v[i];
        if ch == delim {
            if in_str {
                cw.push(ch);
            } else {
                if cw.len() > 0 {
                    acc.push(cw);
                    cw = Vec::new();
                    proof {
                        assert(acc.deep_view() =~~= acc_dv.push(prefix_state_cw(prefix, delim)));
                    }
                }
            }
        } else if ch == '"' {
            cw.push('"');
            in_str = !in_str;
        } else {
            cw.push(ch);
        }
        i = i + 1;
        proof {
            assert(v@.subrange(0, i as int).drop_last() =~= prefix);
            assert(v@.subrange(0, i as int).last() == ch);
        }
    }
    proof {
        assert(v@.subrange(0, v@.len() as int) =~= v@);
    }
    let ghost acc_dv = acc.deep_view();
    if cw.len() > 0 {
        acc.push(cw);
        proof {
            assert(acc.deep_view() =~~= acc_dv.push(prefix_state_cw(v@, delim)));
        }
    }
    acc
}

/// The partial token in the splitter state after reading `s`.
spec fn prefix_state_cw(s: Seq<char>, delim: char) -> Seq<char> {
    split_state(s, delim).1
}

/// Splits `st` on `delim`, respecting quotes: a delimiter between a pair of
/// quote characters is literal. Quotes are kept in the tokens and empty
/// tokens are dropped.
pub fn parse(st: &str, delim: char) -> (r: Vec<String>)
    ensures
        r.deep_view() == spec_split(st@, delim),
{
    let v = str_to_chars(st);
    let parts = split_chars(&v, delim);
    let mut r: Vec<String> = Vec::new();
    let mut i: usize = 0;
    while i < parts.len()
        invariant
            i <= parts.len(),
            r.deep_view() == parts.deep_view().subrange(0, i as int),
        decreases parts.len() - i,
    {
        let ghost r_dv = r.deep_view();
        r.push(chars_to_string(&parts[i]));
        i = i + 1;
        proof {
            assert(r.deep_view() =~~= r_dv.push(parts.deep_view()[i - 1]));
            assert(r.deep_view() =~~= parts.deep_view().subrange(0, i as int));
        }
    }
    proof {
        assert(parts.deep_view().subrange(0, parts.deep_view().len() as int) =~= parts.deep_view());
    }
    r
}

} // verus!
