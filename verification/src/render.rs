//! The body renderers and the top-level generators. The Gemtext path joins
//! body lines into paragraphs, validates inline footnote references, and
//! rejoins the paragraphs; the HTML path wraps bracket markers in anchor
//! pairs and turns paragraph breaks into line-break markers. Both end in
//! template substitution.

use vstd::prelude::*;
use crate::article::{Article, ArticleView};
use crate::chars::{
    append_str, append_vec, chars_to_string, find_char, find_from, lemma_find_from, spec_lines,
    split_lines, str_to_chars, sub_vec,
};
use crate::errors::{err_fixed, err_matches, err_skipped, ErrorKind, SpecErr, XVError};
use crate::numbers::{is_usize_numeral, parse_usize, usize_numeral_val};
use crate::parse::spec_parse_article;
use crate::template::{spec_substitute, substitute, with_body, Format};

verus! {

/// The paragraph-join state after the given lines: the finished paragraphs
/// and the paragraph still being collected. Consecutive non-blank lines are
/// concatenated, each followed by a single space; a blank line finishes the
/// current paragraph.
pub open spec fn join_state(ls: Seq<Seq<char>>) -> (Seq<Seq<char>>, Seq<char>)
    decreases ls.len(),
{
    if ls.len() == 0 {
        (Seq::empty(), Seq::empty())
    } else {
        let st = join_state(ls.drop_last());
        let x = ls.last();
        if x.len() == 0 {
            if st.1.len() > 0 {
                (st.0.push(st.1), Seq::empty())
            } else {
                st
            }
        } else {
            (st.0, st.1 + x + seq![' '])
        }
    }
}

/// The paragraphs of a body: its lines joined, with a final unterminated
/// paragraph kept.
pub open spec fn spec_paragraphs(body: Seq<char>) -> Seq<Seq<char>> {
    let st = join_state(spec_lines(body));
    if st.1.len() > 0 {
        st.0.push(st.1)
    } else {
        st.0
    }
}

/// Joins the body's lines into paragraphs.
#[verifier::loop_isolation(false)]
pub(crate) fn paragraphs(body: &Vec<char>) -> (r: Vec<Vec<char>>)
    ensures
        r.deep_view() == spec_paragraphs(body@),
{
    let lines = split_lines(body);
    let ghost ld = lines.deep_view();
    let mut paras: Vec<Vec<char>> = Vec::new();
    let mut cur: Vec<char> = Vec::new();
    let mut i: usize = 0;
    proof {
        assert(ld.subrange(0, 0) =~= Seq::<Seq<char>>::empty());
        assert(paras.deep_view() =~= Seq::<Seq<char>>::empty());
    }
    while i < lines.len()
        invariant
            i <= lines.len(),
            join_state(ld.subrange(0, i as int)) == (paras.deep_view(), cur@),
        decreases lines.len() - i,
    {
        let ghost pd = paras.deep_view();
        let ghost cur0 = cur@;
        proof {
            assert(ld.subrange(0, i + 1).drop_last() =~= ld.subrange(0, i as int));
            assert(lines@[i as int]@ == ld[i as int]);
        }
        let line = &lines[i];
        if line.len() == 0 {
            if cur.len() > 0 {
                paras.push(cur);
                cur = Vec::new();
                proof {
                    assert(paras.deep_view() =~~= pd.push(cur0));
                }
            }
        } else {
            append_vec(&mut cur, line);
            cur.push(' ');
            proof {
                assert(cur@ =~= cur0 + ld[i as int] + seq![' ']);
            }
        }
        i = i + 1;
    }
    proof {
        assert(ld.subrange(0, ld.len() as int) =~= ld);
    }
    let ghost pd = paras.deep_view();
    if cur.len() > 0 {
        paras.push(cur);
        proof {
            assert(paras.deep_view() =~~= pd.push(join_state(ld).1));
        }
    }
    paras
}

/// The rendered Gemtext body: each paragraph followed by a blank line.
pub open spec fn spec_cat_paras(ps: Seq<Seq<char>>) -> Seq<char>
    decreases ps.len(),
{
    if ps.len() == 0 {
        Seq::empty()
    } else {
        spec_cat_paras(ps.drop_last()) + ps.last() + "\n\n"@
    }
}

/// Rejoins the paragraphs, a blank line after each.
pub(crate) fn cat_paras(ps: &Vec<Vec<char>>) -> (r: Vec<char>)
    ensures
        r@ == spec_cat_paras(ps.deep_view()),
{
    let ghost pd = ps.deep_view();
    let mut out: Vec<char> = Vec::new();
    let mut i: usize = 0;
    proof {
        assert(pd.subrange(0, 0) =~= Seq::<Seq<char>>::empty());
    }
    while i < ps.len()
        invariant
            i <= ps.len(),
            pd == ps.deep_view(),
            pd.len() == ps.len(),
            out@ == spec_cat_paras(pd.subrange(0, i as int)),
        decreases ps.len() - i,
    {
        let ghost out0 = out@;
        proof {
            assert(ps@[i as int]@ == pd[i as int]);
        }
        append_vec(&mut out, &ps[i]);
        append_str(&mut out, "\n\n");
        i = i + 1;
        proof {
            assert(pd.subrange(0, i as int).drop_last() =~= pd.subrange(0, i - 1));
            assert(out@ =~= out0 + pd[i - 1] + "\n\n"@);
        }
    }
    proof {
        assert(pd.subrange(0, pd.len() as int) =~= pd);
    }
    out
}

/// Scans a paragraph for `[<number>]` reference markers from `pos` on, with
/// `count` references validated so far. An opening bracket with no closing
/// bracket after it, contents that are not a non-negative integer, and an
/// index beyond `count + 1` are errors; otherwise the count grows by one per
/// marker.
pub open spec fn spec_validate_from(p: Seq<char>, pos: int, count: int) -> Result<int, SpecErr>
    decreases p.len() - pos,
    via spec_validate_decreases
{
    match find_from(p, pos, '[') {
        None => Ok(count),
        Some(n) => match find_from(p, n + 1, ']') {
            None => Err(SpecErr::UnterminatedMarker),
            Some(q) => {
                let name = p.subrange(n + 1, q);
                if !is_usize_numeral(name) {
                    Err(SpecErr::MalformedReference)
                } else if usize_numeral_val(name) > count + 1 {
                    Err(SpecErr::SkippedAnnotation(usize_numeral_val(name)))
                } else {
                    spec_validate_from(p, q + 1, count + 1)
                }
            },
        },
    }
}

#[via_fn]
proof fn spec_validate_decreases(p: Seq<char>, pos: int, count: int) {
    if pos >= 0 {
        lemma_find_from(p, pos, '[');
        match find_from(p, pos, '[') {
            None => {},
            Some(n) => {
                lemma_find_from(p, n + 1, ']');
            },
        }
    }
}

/// Validates the references of all paragraphs in order, with one running
/// count across the whole body.
pub open spec fn spec_validate_paras(ps: Seq<Seq<char>>, count: int) -> Result<int, SpecErr>
    decreases ps.len(),
{
    if ps.len() == 0 {
        Ok(count)
    } else {
        match spec_validate_paras(ps.drop_last(), count) {
            Err(e) => Err(e),
            Ok(c) => spec_validate_from(ps.last(), 0, c),
        }
    }
}

/// An error raised by some paragraph prefix is the result for the whole
/// body.
pub proof fn lemma_validate_paras_prefix_err(ps: Seq<Seq<char>>, j: int, count: int)
    requires
        0 <= j <= ps.len(),
        spec_validate_paras(ps.subrange(0, j), count) is Err,
    ensures
        spec_validate_paras(ps, count) == spec_validate_paras(ps.subrange(0, j), count),
    decreases ps.len() - j,
{
    if j < ps.len() {
        assert(ps.subrange(0, j + 1).drop_last() =~= ps.subrange(0, j));
        lemma_validate_paras_prefix_err(ps, j + 1, count);
    } else {
        assert(ps.subrange(0, ps.len() as int) =~= ps);
    }
}

/// Validates one paragraph, extending `ind` with each reference seen, as the
/// running count.
#[verifier::loop_isolation(false)]
fn validate_para(p: &Vec<char>, ind: &mut Vec<usize>) -> (r: Result<(), XVError>)
    ensures
        match spec_validate_from(p@, 0, old(ind)@.len() as int) {
            Ok(c) => r is Ok && final(ind)@.len() == c,
            Err(se) => r is Err && err_matches(r->Err_0, se),
        },
{
    let ghost c0 = old(ind)@.len() as int;
    let mut pos: usize = 0;
    loop
        invariant
            pos <= p.len(),
            spec_validate_from(p@, 0, c0) == spec_validate_from(p@, pos as int, ind@.len() as int),
        decreases p.len() - pos,
    {
        match find_char(p, pos, '[') {
            None => {
                return Ok(());
            },
            Some(n) => {
                proof {
                    lemma_find_from(p@, pos as int, '[');
                }
                match find_char(p, n + 1, ']') {
                    None => {
                        return Err(err_fixed(ErrorKind::UnterminatedMarker, "No closing ']' found"));
                    },
                    Some(q) => {
                        proof {
                            lemma_find_from(p@, n as int + 1, ']');
                        }
                        match parse_usize(p, n + 1, q) {
                            None => {
                                return Err(
                                    err_fixed(
                                        ErrorKind::MalformedReference,
                                        "Malformed reference number",
                                    ),
                                );
                            },
                            Some(id) => {
                                if id >= 1 && id - 1 > ind.len() {
                                    return Err(err_skipped(id));
                                }
                                ind.push(id);
                                pos = q + 1;
                            },
                        }
                    },
                }
            },
        }
    }
}

/// The anchor pair that an in-body marker `[<name>]` becomes in HTML: a link
/// with id `retnote<name>` pointing at `#note<name>`, displaying the marker.
pub open spec fn spec_anchor(name: Seq<char>) -> Seq<char> {
    "<a id=\"retnote"@ + name + "\" href=\"#note"@ + name + "\">["@ + name + "]</a>"@
}

/// The HTML body with every bracket marker from `pos` on replaced by its
/// anchor pair. No numeric validation happens on this path; only an opening
/// bracket with no closing bracket after it is an error.
pub open spec fn spec_html_marks_from(s: Seq<char>, pos: int) -> Result<Seq<char>, SpecErr>
    decreases s.len() - pos,
    via spec_html_marks_decreases
{
    match find_from(s, pos, '[') {
        None => Ok(s.subrange(pos, s.len() as int)),
        Some(n) => match find_from(s, n + 1, ']') {
            None => Err(SpecErr::UnterminatedMarker),
            Some(q) => {
                let name = s.subrange(n + 1, q);
                match spec_html_marks_from(s, q + 1) {
                    Err(e) => Err(e),
                    Ok(rest) => Ok(s.subrange(pos, n) + spec_anchor(name) + rest),
                }
            },
        },
    }
}

#[via_fn]
proof fn spec_html_marks_decreases(s: Seq<char>, pos: int) {
    if pos >= 0 {
        lemma_find_from(s, pos, '[');
        match find_from(s, pos, '[') {
            None => {},
            Some(n) => {
                lemma_find_from(s, n + 1, ']');
            },
        }
    }
}

/// Replaces each bracket marker in `v` with its anchor pair.
#[verifier::loop_isolation(false)]
fn html_marks(v: &Vec<char>) -> (r: Result<Vec<char>, XVError>)
    ensures
        match spec_html_marks_from(v@, 0) {
            Ok(s) => r is Ok && r->Ok_0@ == s,
            Err(se) => r is Err && err_matches(r->Err_0, se),
        },
{
    let mut out: Vec<char> = Vec::new();
    let mut pos: usize = 0;
    proof {
        match spec_html_marks_from(v@, 0) {
            Ok(rest) => {
                assert(out@ + rest =~= rest);
            },
            Err(_) => {},
        }
    }
    loop
        invariant
            pos <= v.len(),
            spec_html_marks_from(v@, 0) == (match spec_html_marks_from(v@, pos as int) {
                Ok(rest) => Ok::<Seq<char>, SpecErr>(out@ + rest),
                Err(e) => Err::<Seq<char>, SpecErr>(e),
            }),
        decreases v.len() - pos,
    {
        match find_char(v, pos, '[') {
            None => {
                let tail = sub_vec(v, pos, v.len());
                append_vec(&mut out, &tail);
                return Ok(out);
            },
            Some(n) => {
                proof {
                    lemma_find_from(v@, pos as int, '[');
                }
                match find_char(v, n + 1, ']') {
                    None => {
                        return Err(err_fixed(ErrorKind::UnterminatedMarker, "No closing ']' found"));
                    },
                    Some(q) => {
                        proof {
                            lemma_find_from(v@, n as int + 1, ']');
                        }
                        let name = sub_vec(v, n + 1, q);
                        let ghost out0 = out@;
                        let lit = sub_vec(v, pos, n);
                        append_vec(&mut out, &lit);
                        append_str(&mut out, "<a id=\"retnote");
                        append_vec(&mut out, &name);
                        append_str(&mut out, "\" href=\"#note");
                        append_vec(&mut out, &name);
                        append_str(&mut out, "\">[");
                        append_vec(&mut out, &name);
                        append_str(&mut out, "]</a>");
                        let ghost pos0 = pos as int;
                        pos = q + 1;
                        proof {
                            assert(out@ =~= out0 + v@.subrange(pos0, n as int) + spec_anchor(
                                name@,
                            ));
                            match spec_html_marks_from(v@, q + 1) {
                                Ok(rest) => {
                                    assert(out0 + (v@.subrange(pos0, n as int) + spec_anchor(name@)
                                        + rest) =~= out@ + rest);
                                },
                                Err(_) => {},
                            }
                        }
                    },
                }
            },
        }
    }
}

/// The body with each doubled newline replaced, left to right, by a doubled
/// HTML line break.
pub open spec fn spec_br_from(s: Seq<char>, pos: int) -> Seq<char>
    decreases s.len() - pos,
{
    if pos < 0 || pos >= s.len() {
        Seq::empty()
    } else if pos + 1 < s.len() && s[pos] == '\n' && s[pos + 1] == '\n' {
        "<br /><br />"@ + spec_br_from(s, pos + 2)
    } else {
        seq![s[pos]] + spec_br_from(s, pos + 1)
    }
}

/// Replaces each doubled newline with a doubled line break.
#[verifier::loop_isolation(false)]
fn br_replace(v: &Vec<char>) -> (r: Vec<char>)
    ensures
        r@ == spec_br_from(v@, 0),
{
    let mut out: Vec<char> = Vec::new();
    let mut pos: usize = 0;
    proof {
        assert(out@ + spec_br_from(v@, 0) =~= spec_br_from(v@, 0));
    }
    while pos < v.len()
        invariant
            pos <= v.len(),
            spec_br_from(v@, 0) == out@ + spec_br_from(v@, pos as int),
        decreases v.len() - pos,
    {
        let ghost out0 = out@;
        if pos + 1 < v.len() && v[pos] == '\n' && v[pos + 1] == '\n' {
            append_str(&mut out, "<br /><br />");
            pos = pos + 2;
            proof {
                assert(out0 + ("<br /><br />"@ + spec_br_from(v@, pos as int)) =~= out@
                    + spec_br_from(v@, pos as int));
            }
        } else {
            out.push(v[pos]);
            pos = pos + 1;
            proof {
                assert(out0 + (seq![v@[pos - 1]] + spec_br_from(v@, pos as int)) =~= out@
                    + spec_br_from(v@, pos as int));
            }
        }
    }
    proof {
        assert(out@ + spec_br_from(v@, pos as int) =~= out@);
    }
    out
}

/// The Gemtext rendering of an article against a template, with the date
/// supplied: paragraphs joined, references validated, body rejoined with
/// blank lines, then the template substituted.
pub open spec fn spec_render_gemtext(art: ArticleView, t: Seq<char>, date: Seq<char>) -> Result<
    Seq<char>,
    SpecErr,
> {
    let ps = spec_paragraphs(art.body);
    match spec_validate_paras(ps, 0) {
        Err(e) => Err(e),
        Ok(_) => spec_substitute(t, with_body(art, spec_cat_paras(ps)), date, Format::Gmi),
    }
}

/// The HTML rendering of an article against a template, with the date
/// supplied: bracket markers wrapped in anchor pairs, paragraph breaks
/// turned into line breaks, then the template substituted.
pub open spec fn spec_render_html(art: ArticleView, t: Seq<char>, date: Seq<char>) -> Result<
    Seq<char>,
    SpecErr,
> {
    match spec_html_marks_from(art.body, 0) {
        Err(e) => Err(e),
        Ok(b) => spec_substitute(t, with_body(art, spec_br_from(b, 0)), date, Format::Html),
    }
}

/// Renders an article as Gemtext against a template, with the date to
/// substitute for the `date` key passed in by the caller.
#[verifier::loop_isolation(false)]
pub fn render_gemtext(art: &Article, template: &str, date: &str) -> (r: Result<String, XVError>)
    ensures
        match spec_render_gemtext(art@, template@, date@) {
            Ok(s) => r is Ok && r->Ok_0@ == s,
            Err(se) => r is Err && err_matches(r->Err_0, se),
        },
{
    let body = str_to_chars(art.body.as_str());
    let paras = paragraphs(&body);
    let ghost pd = paras.deep_view();
    let mut ind: Vec<usize> = Vec::new();
    let mut k: usize = 0;
    proof {
        assert(pd.subrange(0, 0) =~= Seq::<Seq<char>>::empty());
    }
    while k < paras.len()
        invariant
            k <= paras.len(),
            spec_validate_paras(pd.subrange(0, k as int), 0) == Ok::<int, SpecErr>(
                ind@.len() as int,
            ),
        decreases paras.len() - k,
    {
        proof {
            assert(pd.subrange(0, k + 1).drop_last() =~= pd.subrange(0, k as int));
            assert(paras@[k as int]@ == pd[k as int]);
        }
        match validate_para(&paras[k], &mut ind) {
            Ok(_) => {},
            Err(e) => {
                proof {
                    lemma_validate_paras_prefix_err(pd, k + 1, 0);
                }
                return Err(e);
            },
        }
        k = k + 1;
    }
    proof {
        assert(pd.subrange(0, pd.len() as int) =~= pd);
    }
    let new_body = cat_paras(&paras);
    let t = str_to_chars(template);
    let d = str_to_chars(date);
    match substitute(&t, art, &new_body, &d, Format::Gmi) {
        Ok(v) => Ok(chars_to_string(&v)),
        Err(e) => Err(e),
    }
}

/// Renders an article as HTML against a template, with the date to
/// substitute for the `date` key passed in by the caller.
#[verifier::loop_isolation(false)]
pub fn render_html(art: &Article, template: &str, date: &str) -> (r: Result<String, XVError>)
    ensures
        match spec_render_html(art@, template@, date@) {
            Ok(s) => r is Ok && r->Ok_0@ == s,
            Err(se) => r is Err && err_matches(r->Err_0, se),
        },
{
    let body = str_to_chars(art.body.as_str());
    match html_marks(&body) {
        Err(e) => Err(e),
        Ok(m) => {
            let b2 = br_replace(&m);
            let t = str_to_chars(template);
            let d = str_to_chars(date);
            match substitute(&t, art, &b2, &d, Format::Html) {
                Ok(v) => Ok(chars_to_string(&v)),
                Err(e) => Err(e),
            }
        },
    }
}

/// Renders an article as Gemtext against a template, with the `date` key
/// resolved to the current UTC date. Whatever date the clock gives, the
/// result is the rendering for that date.
pub fn gen_gemtext(art: &Article, template: &str) -> (r: Result<String, XVError>)
    ensures
        exists|d: Seq<char>|
            match #[trigger] spec_render_gemtext(art@, template@, d) {
                Ok(s) => r is Ok && r->Ok_0@ == s,
                Err(se) => r is Err && err_matches(r->Err_0, se),
            },
{
    let date = crate::clock::today_utc();
    let r = render_gemtext(art, template, date.as_str());
    proof {
        let d0 = date@;
        assert(match spec_render_gemtext(art@, template@, d0) {
            Ok(s) => r is Ok && r->Ok_0@ == s,
            Err(se) => r is Err && err_matches(r->Err_0, se),
        });
    }
    r
}

/// Renders an article as HTML against a template, with the `date` key
/// resolved to the current UTC date. Whatever date the clock gives, the
/// result is the rendering for that date.
pub fn gen_html(art: &Article, template: &str) -> (r: Result<String, XVError>)
    ensures
        exists|d: Seq<char>|
            match #[trigger] spec_render_html(art@, template@, d) {
                Ok(s) => r is Ok && r->Ok_0@ == s,
                Err(se) => r is Err && err_matches(r->Err_0, se),
            },
{
    let date = crate::clock::today_utc();
    let r = render_html(art, template, date.as_str());
    proof {
        let d0 = date@;
        assert(match spec_render_html(art@, template@, d0) {
            Ok(s) => r is Ok && r->Ok_0@ == s,
            Err(se) => r is Err && err_matches(r->Err_0, se),
        });
    }
    r
}

/// The whole pipeline: parse the document, then render it in the given
/// format against the template, with the date supplied.
pub open spec fn spec_pipeline(
    text: Seq<char>,
    t: Seq<char>,
    date: Seq<char>,
    fmt: Format,
) -> Result<Seq<char>, SpecErr> {
    match spec_parse_article(text) {
        Err(e) => Err(e),
        Ok(a) => match fmt {
            Format::Gmi => spec_render_gemtext(a, t, date),
            Format::Html => spec_render_html(a, t, date),
        },
    }
}

/// Parses and renders a document in one step.
pub fn render_document(text: &str, template: &str, date: &str, fmt: Format) -> (r: Result<
    String,
    XVError,
>)
    ensures
        match spec_pipeline(text@, template@, date@, fmt) {
            Ok(s) => r is Ok && r->Ok_0@ == s,
            Err(se) => r is Err && err_matches(r->Err_0, se),
        },
{
    match crate::parse::parse_article(text) {
        Err(e) => Err(e),
        Ok(art) => match fmt {
            Format::Gmi => render_gemtext(&art, template, date),
            Format::Html => render_html(&art, template, date),
        },
    }
}

/// Rendering is a function of the article, the template and the date alone:
/// equal inputs give equal results, character for character, in both
/// formats.
pub proof fn lemma_render_deterministic(
    a1: ArticleView,
    a2: ArticleView,
    t1: Seq<char>,
    t2: Seq<char>,
    d1: Seq<char>,
    d2: Seq<char>,
)
    requires
        a1 == a2,
        t1 == t2,
        d1 == d2,
    ensures
        spec_render_gemtext(a1, t1, d1) == spec_render_gemtext(a2, t2, d2),
        spec_render_html(a1, t1, d1) == spec_render_html(a2, t2, d2),
{
}

/// The whole pipeline is deterministic: the same source text, template,
/// date and format give the same result.
pub proof fn lemma_pipeline_deterministic(
    x1: Seq<char>,
    x2: Seq<char>,
    t1: Seq<char>,
    t2: Seq<char>,
    d1: Seq<char>,
    d2: Seq<char>,
    fmt: Format,
)
    requires
        x1 == x2,
        t1 == t2,
        d1 == d2,
    ensures
        spec_pipeline(x1, t1, d1, fmt) == spec_pipeline(x2, t2, d2, fmt),
{
}

} // verus!
