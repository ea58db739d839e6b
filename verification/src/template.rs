//! The template substitution engine: scans a template for placeholders
//! delimited by format-specific start and end tokens (`$$name$_` for
//! Gemtext, `##name#_` for HTML) and replaces each with the value the key
//! resolver gives it.

use vstd::prelude::*;
use crate::article::{spec_version, Article, ArticleView};
use crate::chars::{
    append_str, append_vec, chars_eq_str, find_pair, find2_from, lemma_find2_from, str_to_chars,
    sub_vec,
};
use crate::errors::{err_fixed, err_invalid_subst, err_matches, ErrorKind, SpecErr, XVError};
use crate::notes::{gmi_notes_chars, html_notes_chars, spec_gmi_notes, spec_html_notes};

verus! {

/// The two output formats, each with its own delimiters and notes shape.
#[derive(Debug, PartialEq, Eq, Structural, Clone, Copy)]
pub enum Format {
    Html,
    Gmi,
}

/// The two characters that open a placeholder.
pub open spec fn start_delims(fmt: Format) -> (char, char) {
    match fmt {
        Format::Gmi => ('$', '$'),
        Format::Html => ('#', '#'),
    }
}

/// The two characters that close a placeholder.
pub open spec fn end_delims(fmt: Format) -> (char, char) {
    match fmt {
        Format::Gmi => ('$', '_'),
        Format::Html => ('#', '_'),
    }
}

/// An article view whose body has been replaced by the rendered body.
pub open spec fn with_body(a: ArticleView, b: Seq<char>) -> ArticleView {
    ArticleView { body: b, ..a }
}

/// What a placeholder name resolves to: the article's fields, the rendered
/// notes list, the supplied date, or the build identifier. Any other name is
/// unresolved.
pub open spec fn spec_resolve(
    name: Seq<char>,
    art: ArticleView,
    date: Seq<char>,
    fmt: Format,
) -> Option<Seq<char>> {
    if name == "title"@ {
        Some(art.title)
    } else if name == "subtitle"@ {
        Some(art.subtitle)
    } else if name == "body"@ {
        Some(art.body)
    } else if name == "notes"@ {
        Some(
            match fmt {
                Format::Gmi => spec_gmi_notes(art.notes),
                Format::Html => spec_html_notes(art.notes),
            },
        )
    } else if name == "date"@ {
        Some(date)
    } else if name == "version"@ {
        Some(spec_version())
    } else {
        None
    }
}

/// Resolves a placeholder name against the article, the rendered body, the
/// supplied date and the format.
pub(crate) fn resolve_key(
    name: &Vec<char>,
    art: &Article,
    body: &Vec<char>,
    date: &Vec<char>,
    fmt: Format,
) -> (r: Option<Vec<char>>)
    ensures
        match r {
            Some(v) => spec_resolve(name@, with_body(art@, body@), date@, fmt) == Some(v@),
            None => spec_resolve(name@, with_body(art@, body@), date@, fmt) is None,
        },
{
    if chars_eq_str(name, "title") {
        Some(str_to_chars(art.title.as_str()))
    } else if chars_eq_str(name, "subtitle") {
        Some(str_to_chars(art.subtitle.as_str()))
    } else if chars_eq_str(name, "body") {
        Some(sub_vec(body, 0, body.len()))
    } else if chars_eq_str(name, "notes") {
        match fmt {
            Format::Gmi => Some(gmi_notes_chars(&art.notes)),
            Format::Html => Some(html_notes_chars(&art.notes)),
        }
    } else if chars_eq_str(name, "date") {
        Some(sub_vec(date, 0, date.len()))
    } else if chars_eq_str(name, "version") {
        let mut v: Vec<char> = Vec::new();
        append_str(&mut v, "v.pre");
        Some(v)
    } else {
        None
    }
}

/// The substituted template from `pos` on: literal text is kept, each
/// placeholder is replaced by its resolved value, a start delimiter without
/// a later end delimiter is an error, and so is an unresolved name.
pub open spec fn spec_subst_from(
    t: Seq<char>,
    pos: int,
    art: ArticleView,
    date: Seq<char>,
    fmt: Format,
) -> Result<Seq<char>, SpecErr>
    decreases t.len() - pos,
    via spec_subst_decreases
{
    let sd = start_delims(fmt);
    let ed = end_delims(fmt);
    match find2_from(t, pos, sd.0, sd.1) {
        None => Ok(t.subrange(pos, t.len() as int)),
        Some(n) => match find2_from(t, n + 2, ed.0, ed.1) {
            None => Err(SpecErr::UnterminatedTag),
            Some(p) => {
                let name = t.subrange(n + 2, p);
                match spec_resolve(name, art, date, fmt) {
                    None => Err(SpecErr::InvalidSubstitution(name)),
                    Some(v) => match spec_subst_from(t, p + 2, art, date, fmt) {
                        Err(e) => Err(e),
                        Ok(rest) => Ok(t.subrange(pos, n) + v + rest),
                    },
                }
            },
        },
    }
}

#[via_fn]
proof fn spec_subst_decreases(t: Seq<char>, pos: int, art: ArticleView, date: Seq<char>, fmt: Format) {
    let sd = start_delims(fmt);
    let ed = end_delims(fmt);
    if pos >= 0 {
        lemma_find2_from(t, pos, sd.0, sd.1);
        match find2_from(t, pos, sd.0, sd.1) {
            None => {},
            Some(n) => {
                lemma_find2_from(t, n + 2, ed.0, ed.1);
            },
        }
    }
}

/// The fully substituted template, or the first error.
pub open spec fn spec_substitute(
    t: Seq<char>,
    art: ArticleView,
    date: Seq<char>,
    fmt: Format,
) -> Result<Seq<char>, SpecErr> {
    spec_subst_from(t, 0, art, date, fmt)
}

/// Runs the substitution engine over the whole template.
#[verifier::loop_isolation(false)]
pub(crate) fn substitute(
    t: &Vec<char>,
    art: &Article,
    body: &Vec<char>,
    date: &Vec<char>,
    fmt: Format,
) -> (r: Result<Vec<char>, XVError>)
    ensures
        match spec_substitute(t@, with_body(art@, body@), date@, fmt) {
            Ok(s) => r is Ok && r->Ok_0@ == s,
            Err(se) => r is Err && err_matches(r->Err_0, se),
        },
{
    let ghost av = with_body(art@, body@);
    let (s0, s1) = match fmt {
        Format::Gmi => ('$', '$'),
        Format::Html => ('#', '#'),
    };
    let (e0, e1) = match fmt {
        Format::Gmi => ('$', '_'),
        Format::Html => ('#', '_'),
    };
    proof {
        assert((s0, s1) == start_delims(fmt));
        assert((e0, e1) == end_delims(fmt));
    }
    let mut out: Vec<char> = Vec::new();
    let mut pos: usize = 0;
    proof {
        match spec_subst_from(t@, 0, av, date@, fmt) {
            Ok(rest) => {
                assert(out@ + rest =~= rest);
            },
            Err(_) => {},
        }
    }
    loop
        invariant
            pos <= t.len(),
            spec_subst_from(t@, 0, av, date@, fmt) == (match spec_subst_from(
                t@,
                pos as int,
                av,
                date@,
                fmt,
            ) {
                Ok(rest) => Ok::<Seq<char>, SpecErr>(out@ + rest),
                Err(e) => Err::<Seq<char>, SpecErr>(e),
            }),
        decreases t.len() - pos,
    {
        match find_pair(t, pos, s0, s1) {
            None => {
                let tail = sub_vec(t, pos, t.len());
                append_vec(&mut out, &tail);
                return Ok(out);
            },
            Some(n) => {
                proof {
                    lemma_find2_from(t@, pos as int, s0, s1);
                }
                match find_pair(t, n + 2, e0, e1) {
                    None => {
                        return Err(err_fixed(ErrorKind::UnterminatedTag, "No closing tag found"));
                    },
                    Some(p) => {
                        proof {
                            lemma_find2_from(t@, n as int + 2, e0, e1);
                        }
                        let name = sub_vec(t, n + 2, p);
                        match resolve_key(&name, art, body, date, fmt) {
                            None => {
                                return Err(err_invalid_subst(&name));
                            },
                            Some(v) => {
                                let ghost out0 = out@;
                                let lit = sub_vec(t, pos, n);
                                append_vec(&mut out, &lit);
                                append_vec(&mut out, &v);
                                let ghost pos0 = pos as int;
                                pos = p + 2;
                                proof {
                                    match spec_subst_from(t@, p + 2, av, date@, fmt) {
                                        Ok(rest) => {
                                            assert(out0 + (t@.subrange(pos0, n as int) + v@ + rest)
                                                =~= out@ + rest);
                                        },
                                        Err(_) => {},
                                    }
                                }
                            },
                        }
                    },
                }
            },
        }
    }
}

} // verus!
