//! Footnote list rendering: the `notes` template key resolves to one entry
//! per declared footnote, numbered from 1, in a format-specific shape.

use vstd::prelude::*;
use crate::article::Article;
use crate::chars::{append_str, append_vec, chars_to_string, str_to_chars};
use crate::numbers::{dec_of, usize_to_chars};

verus! {

/// One Gemtext notes line: `* [n] : text`, with a trailing newline.
pub open spec fn gmi_note_entry(n: nat, text: Seq<char>) -> Seq<char> {
    "* ["@ + dec_of(n) + "] : "@ + text + "\n"@
}

/// The Gemtext rendering of the whole notes list.
pub open spec fn spec_gmi_notes(notes: Seq<Seq<char>>) -> Seq<char>
    decreases notes.len(),
{
    if notes.len() == 0 {
        Seq::empty()
    } else {
        spec_gmi_notes(notes.drop_last()) + gmi_note_entry(notes.len() as nat, notes.last())
    }
}

/// One HTML notes block: a paragraph with the note's anchor id and a
/// back-link to the in-body reference.
pub open spec fn html_note_entry(n: nat, text: Seq<char>) -> Seq<char> {
    "<p id=\"note"@ + dec_of(n) + "\">["@ + dec_of(n) + "]  "@ + text + "  <a href=\"#retnote"@
        + dec_of(n) + "\">(return)</a></p>\n"@
}

/// The HTML rendering of the whole notes list.
pub open spec fn spec_html_notes(notes: Seq<Seq<char>>) -> Seq<char>
    decreases notes.len(),
{
    if notes.len() == 0 {
        Seq::empty()
    } else {
        spec_html_notes(notes.drop_last()) + html_note_entry(notes.len() as nat, notes.last())
    }
}

/// Renders the notes list for Gemtext, as characters.
pub(crate) fn gmi_notes_chars(notes: &Vec<String>) -> (r: Vec<char>)
    ensures
        r@ == spec_gmi_notes(notes.deep_view()),
{
    let ghost nd = notes.deep_view();
    let mut out: Vec<char> = Vec::new();
    let mut i: usize = 0;
    proof {
        assert(nd.subrange(0, 0) =~= Seq::<Seq<char>>::empty());
    }
    while i < notes.len()
        invariant
            i <= notes.len(),
            nd == notes.deep_view(),
            nd.len() == notes.len(),
            out@ == spec_gmi_notes(nd.subrange(0, i as int)),
        decreases notes.len() - i,
    {
        let ghost out0 = out@;
        append_str(&mut out, "* [");
        let num = usize_to_chars(i + 1);
        append_vec(&mut out, &num);
        append_str(&mut out, "] : ");
        let text = str_to_chars(notes[i].as_str());
        append_vec(&mut out, &text);
        append_str(&mut out, "\n");
        i = i + 1;
        proof {
            assert(nd.subrange(0, i as int).drop_last() =~= nd.subrange(0, i - 1));
            assert(nd.subrange(0, i as int).last() == nd[i - 1]);
            assert(text@ == nd[i - 1]);
            assert(out@ =~= out0 + gmi_note_entry(i as nat, nd[i - 1]));
        }
    }
    proof {
        assert(nd.subrange(0, nd.len() as int) =~= nd);
    }
    out
}

/// Renders the notes list for HTML, as characters.
pub(crate) fn html_notes_chars(notes: &Vec<String>) -> (r: Vec<char>)
    ensures
        r@ == spec_html_notes(notes.deep_view()),
{
    let ghost nd = notes.deep_view();
    let mut out: Vec<char> = Vec::new();
    let mut i: usize = 0;
    proof {
        assert(nd.subrange(0, 0) =~= Seq::<Seq<char>>::empty());
    }
    while i < notes.len()
        invariant
            i <= notes.len(),
            nd == notes.deep_view(),
            nd.len() == notes.len(),
            out@ == spec_html_notes(nd.subrange(0, i as int)),
        decreases notes.len() - i,
    {
        let ghost out0 = out@;
        append_str(&mut out, "<p id=\"note");
        let num = usize_to_chars(i + 1);
        append_vec(&mut out, &num);
        append_str(&mut out, "\">[");
        append_vec(&mut out, &num);
        append_str(&mut out, "]  ");
        let text = str_to_chars(notes[i].as_str());
        append_vec(&mut out, &text);
        append_str(&mut out, "  <a href=\"#retnote");
        append_vec(&mut out, &num);
        append_str(&mut out, "\">(return)</a></p>\n");
        i = i + 1;
        proof {
            assert(nd.subrange(0, i as int).drop_last() =~= nd.subrange(0, i - 1));
            assert(nd.subrange(0, i as int).last() == nd[i - 1]);
            assert(text@ == nd[i - 1]);
            assert(out@ =~= out0 + html_note_entry(i as nat, nd[i - 1]));
        }
    }
    proof {
        assert(nd.subrange(0, nd.len() as int) =~= nd);
    }
    out
}

/// The Gemtext notes list of an article, as a string.
pub fn gmi_notes(art: &Article) -> (r: String)
    ensures
        r@ == spec_gmi_notes(art@.notes),
{
    let v = gmi_notes_chars(&art.notes);
    chars_to_string(&v)
}

/// The HTML notes list of an article, as a string.
pub fn html_notes(art: &Article) -> (r: String)
    ensures
        r@ == spec_html_notes(art@.notes),
{
    let v = html_notes_chars(&art.notes);
    chars_to_string(&v)
}

} // verus!
