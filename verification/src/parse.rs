//! The directive parser: turns raw document text into a structured article.
//! A line whose first character is `#` is a directive (`#title:`,
//! `#subtitle:`, `#tags:`, or `#<n>:` declaring footnote `n`); every other
//! line, blank lines included, is body text.

use vstd::prelude::*;
use crate::article::{empty_article, spec_tag_from, tag_from_chars, Article, ArticleView};
use crate::chars::{
    chars_to_string, find_char, find_from, lemma_find_from, spec_lines, split_lines, str_to_chars,
    sub_vec, vecs_to_strings,
};
use crate::errors::{err_fixed, err_matches, ErrorKind, SpecErr, XVError};
use crate::numbers::{is_usize_numeral, parse_usize, usize_numeral_val};
use crate::split::{spec_split, split_chars};

verus! {

/// How a single line changes the article being built, or the error it
/// raises. A blank line adds a bare newline to the body; a directive line
/// updates the field its key names; any other line is appended to the body
/// with a newline.
pub open spec fn parse_line(a: ArticleView, l: Seq<char>) -> Result<ArticleView, SpecErr> {
    if l.len() == 0 {
        Ok(ArticleView { body: a.body + "\n"@, ..a })
    } else if l[0] == '#' {
        match find_from(l, 0, ':') {
            None => Err(SpecErr::NullDirective),
            Some(n) => {
                let key = l.subrange(1, n);
                let val = l.subrange(n + 1, l.len() as int);
                if key == "title"@ {
                    Ok(ArticleView { title: val, ..a })
                } else if key == "subtitle"@ {
                    Ok(ArticleView { subtitle: val, ..a })
                } else if key == "tags"@ {
                    let toks = spec_split(val, ',');
                    if forall|i: int| 0 <= i < toks.len() ==> spec_tag_from(#[trigger] toks[i]) is Some {
                        Ok(
                            ArticleView {
                                tags: a.tags + toks.map_values(|t: Seq<char>| spec_tag_from(t)->0),
                                ..a
                            },
                        )
                    } else {
                        Err(SpecErr::InvalidTag)
                    }
                } else if is_usize_numeral(key) {
                    if usize_numeral_val(key) == a.notes.len() + 1 {
                        Ok(ArticleView { notes: a.notes.push(val), ..a })
                    } else {
                        Err(SpecErr::InvalidFootnoteNumber)
                    }
                } else {
                    Err(SpecErr::InvalidDirective)
                }
            },
        }
    } else {
        Ok(ArticleView { body: a.body + l + "\n"@, ..a })
    }
}

/// The article built from the given lines, starting empty, or the first
/// error raised.
pub open spec fn parse_lines(ls: Seq<Seq<char>>) -> Result<ArticleView, SpecErr>
    decreases ls.len(),
{
    if ls.len() == 0 {
        Ok(empty_article())
    } else {
        match parse_lines(ls.drop_last()) {
            Err(e) => Err(e),
            Ok(a) => parse_line(a, ls.last()),
        }
    }
}

/// The article that the document text denotes, or the first error raised.
pub open spec fn spec_parse_article(text: Seq<char>) -> Result<ArticleView, SpecErr> {
    parse_lines(spec_lines(text))
}

/// An error raised by some line prefix is the result for the whole document:
/// later lines cannot undo it.
pub proof fn lemma_parse_lines_prefix_err(ls: Seq<Seq<char>>, j: int)
    requires
        0 <= j <= ls.len(),
        parse_lines(ls.subrange(0, j)) is Err,
    ensures
        parse_lines(ls) == parse_lines(ls.subrange(0, j)),
    decreases ls.len() - j,
{
    if j < ls.len() {
        assert(ls.subrange(0, j + 1).drop_last() =~= ls.subrange(0, j));
        assert(parse_lines(ls.subrange(0, j + 1)) == parse_lines(ls.subrange(0, j)));
        lemma_parse_lines_prefix_err(ls, j + 1);
    } else {
        assert(ls.subrange(0, ls.len() as int) =~= ls);
    }
}

/// The view assembled from the parser's working state.
spec fn assemble(
    title: Seq<char>,
    subtitle: Seq<char>,
    tags: Seq<crate::article::Tag>,
    notes: Seq<Seq<char>>,
    body: Seq<char>,
) -> ArticleView {
    ArticleView { title, subtitle, tags, notes, body }
}

/// Parses a document into an article: directive lines fill the fields, the
/// remaining lines accumulate into the body, and the first malformed
/// directive aborts the parse with its error.
#[verifier::loop_isolation(false)]
pub fn parse_article(text: &str) -> (r: Result<Article, XVError>)
    ensures
        match spec_parse_article(text@) {
            Ok(av) => r is Ok && r->Ok_0@ == av,
            Err(se) => r is Err && err_matches(r->Err_0, se),
        },
{
    let chars = str_to_chars(text);
    let lines = split_lines(&chars);
    let ghost ld = lines.deep_view();
    let mut title: Vec<char> = Vec::new();
    let mut subtitle: Vec<char> = Vec::new();
    let mut tags: Vec<crate::article::Tag> = Vec::new();
    let mut notes: Vec<Vec<char>> = Vec::new();
    let mut body: Vec<char> = Vec::new();
    let mut i: usize = 0;
    proof {
        assert(ld.subrange(0, 0) =~= Seq::<Seq<char>>::empty());
        assert(notes.deep_view() =~= Seq::<Seq<char>>::empty());
    }
    while i < lines.len()
        invariant
            i <= lines.len(),
            ld == lines.deep_view(),
            ld.len() == lines.len(),
            spec_lines(text@) == ld,
            parse_lines(ld.subrange(0, i as int)) == Ok::<ArticleView, SpecErr>(
                assemble(title@, subtitle@, tags@, notes.deep_view(), body@),
            ),
        decreases lines.len() - i,
    {
        let ghost cur = assemble(title@, subtitle@, tags@, notes.deep_view(), body@);
        let ghost l = ld[i as int];
        let line = &lines[i];
        proof {
            assert(line@ == l);
            assert(ld.subrange(0, i + 1).drop_last() =~= ld.subrange(0, i as int));
            assert(ld.subrange(0, i + 1).last() == l);
            assert(parse_lines(ld.subrange(0, i + 1)) == parse_line(cur, l));
        }
        if line.len() == 0 {
            body.push('\n');
            proof {
                reveal_strlit("\n");
                assert(body@ =~= cur.body + "\n"@);
            }
        } else if line[0] == '#' {
            match find_char(line, 0, ':') {
                None => {
                    proof {
                        lemma_parse_lines_prefix_err(ld, i + 1);
                    }
                    return Err(err_fixed(ErrorKind::NullDirective, "Error: Null tag"));
                },
                Some(n) => {
                    proof {
                        lemma_find_from(l, 0, ':');
                        assert(l[0] == '#');
                        assert(n >= 1);
                    }
                    let key = sub_vec(line, 1, n);
                    let val = sub_vec(line, n + 1, line.len());
                    if crate::chars::chars_eq_str(&key, "title") {
                        title = val;
                    } else if crate::chars::chars_eq_str(&key, "subtitle") {
                        subtitle = val;
                    } else if crate::chars::chars_eq_str(&key, "tags") {
                        let toks = split_chars(&val, ',');
                        let ghost toks_dv = toks.deep_view();
                        let ghost tags0 = tags@;
                        let mut j: usize = 0;
                        proof {
                            assert(tags@ =~= tags0 + toks_dv.subrange(0, 0).map_values(
                                |t: Seq<char>| spec_tag_from(t)->0,
                            ));
                        }
                        while j < toks.len()
                            invariant
                                j <= toks.len(),
                                toks_dv == toks.deep_view(),
                                toks_dv.len() == toks.len(),
                                forall|k: int|
                                    0 <= k < j ==> spec_tag_from(#[trigger] toks_dv[k]) is Some,
                                tags@ == tags0 + toks_dv.subrange(0, j as int).map_values(
                                    |t: Seq<char>| spec_tag_from(t)->0,
                                ),
                            decreases toks.len() - j,
                        {
                            proof {
                                assert(toks@[j as int]@ == toks_dv[j as int]);
                            }
                            match tag_from_chars(&toks[j]) {
                                Some(tg) => {
                                    let ghost tags_prev = tags@;
                                    tags.push(tg);
                                    j = j + 1;
                                    proof {
                                        assert(toks_dv.subrange(0, j as int).map_values(
                                            |t: Seq<char>| spec_tag_from(t)->0,
                                        ) =~= toks_dv.subrange(0, j - 1).map_values(
                                            |t: Seq<char>| spec_tag_from(t)->0,
                                        ).push(tg));
                                        assert(tags@ =~= tags_prev.push(tg));
                                    }
                                },
                                None => {
                                    proof {
                                        assert(spec_tag_from(toks_dv[j as int]) is None);
                                        assert(parse_line(cur, l) == Err::<ArticleView, SpecErr>(
                                            SpecErr::InvalidTag,
                                        ));
                                        lemma_parse_lines_prefix_err(ld, i + 1);
                                    }
                                    return Err(err_fixed(ErrorKind::InvalidTag, "Invalid tag"));
                                },
                            }
                        }
                        proof {
                            assert(toks_dv.subrange(0, toks_dv.len() as int) =~= toks_dv);
                        }
                    } else {
                        match parse_usize(&key, 0, key.len()) {
                            Some(id) => {
                                proof {
                                    assert(key@.subrange(0, key@.len() as int) =~= key@);
                                }
                                if id >= 1 && id - 1 == notes.len() {
                                    let ghost notes_dv = notes.deep_view();
                                    notes.push(val);
                                    proof {
                                        assert(notes.deep_view() =~~= notes_dv.push(l.subrange(
                                            n + 1,
                                            l.len() as int,
                                        )));
                                    }
                                } else {
                                    proof {
                                        lemma_parse_lines_prefix_err(ld, i + 1);
                                    }
                                    return Err(
                                        err_fixed(
                                            ErrorKind::InvalidFootnoteNumber,
                                            "Invalid footnote number",
                                        ),
                                    );
                                }
                            },
                            None => {
                                proof {
                                    assert(key@.subrange(0, key@.len() as int) =~= key@);
                                    lemma_parse_lines_prefix_err(ld, i + 1);
                                }
                                return Err(
                                    err_fixed(ErrorKind::InvalidDirective, "Invalid directive"),
                                );
                            },
                        }
                    }
                },
            }
        } else {
            crate::chars::append_vec(&mut body, line);
            body.push('\n');
            proof {
                reveal_strlit("\n");
                assert(body@ =~= cur.body + l + "\n"@);
            }
        }
        i = i + 1;
    }
    proof {
        assert(ld.subrange(0, ld.len() as int) =~= ld);
    }
    let art = Article {
        title: chars_to_string(&title),
        subtitle: chars_to_string(&subtitle),
        tags,
        notes: vecs_to_strings(&notes),
        body: chars_to_string(&body),
    };
    Ok(art)
}

} // verus!
