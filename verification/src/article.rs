//! The article data model: the closed tag set, the `Article` record that the
//! directive parser fills in, and its mathematical view.

use vstd::prelude::*;
use crate::chars::{chars_eq_str, spec_trim, str_to_chars, trim_chars};

verus! {

/// The build identifier substituted for the `version` template key.
pub open spec fn spec_version() -> Seq<char> {
    "v.pre"@
}

/// The build identifier, as a string.
pub fn version() -> (r: String)
    ensures
        r@ == spec_version(),
{
    String::from_str("v.pre")
}

/// The closed set of article tags; any other tag text is a parse error.
#[derive(Debug, PartialEq, Eq, Structural, Clone, Copy)]
pub enum Tag {
    Story,
    Project,
    Music,
    Review,
    Misc,
}

/// The tag that a token denotes after trimming, if any.
pub open spec fn spec_tag_from(s: Seq<char>) -> Option<Tag> {
    let t = spec_trim(s);
    if t == "story"@ {
        Some(Tag::Story)
    } else if t == "project"@ {
        Some(Tag::Project)
    } else if t == "music"@ {
        Some(Tag::Music)
    } else if t == "review"@ {
        Some(Tag::Review)
    } else if t == "misc"@ {
        Some(Tag::Misc)
    } else {
        None
    }
}

/// Looks a trimmed token up in the tag set; used on each comma-separated
/// piece of a `tags` directive.
pub(crate) fn tag_from_chars(v: &Vec<char>) -> (r: Option<Tag>)
    ensures
        r == spec_tag_from(v@),
{
    let t = trim_chars(v);
    if chars_eq_str(&t, "story") {
        Some(Tag::Story)
    } else if chars_eq_str(&t, "project") {
        Some(Tag::Project)
    } else if chars_eq_str(&t, "music") {
        Some(Tag::Music)
    } else if chars_eq_str(&t, "review") {
        Some(Tag::Review)
    } else if chars_eq_str(&t, "misc") {
        Some(Tag::Misc)
    } else {
        None
    }
}

impl Tag {
    /// The tag that `st` denotes after trimming, or `None` for any text
    /// outside the closed set.
    pub fn from(st: &String) -> (r: Option<Tag>)
        ensures
            r == spec_tag_from(st@),
    {
        let v = str_to_chars(st.as_str());
        tag_from_chars(&v)
    }
}

/// The mathematical view of an `Article`.
pub struct ArticleView {
    pub title: Seq<char>,
    pub subtitle: Seq<char>,
    pub tags: Seq<Tag>,
    pub notes: Seq<Seq<char>>,
    pub body: Seq<char>,
}

/// The view of a freshly created article: every field empty.
pub open spec fn empty_article() -> ArticleView {
    ArticleView {
        title: Seq::empty(),
        subtitle: Seq::empty(),
        tags: Seq::empty(),
        notes: Seq::empty(),
        body: Seq::empty(),
    }
}

/// A parsed article, before any output formatting has been applied.
/// `notes` is ordered by declaration, which the parser keeps equal to the
/// footnote numbering starting at 1.
#[derive(Debug)]
pub struct Article {
    pub title: String,
    pub subtitle: String,
    pub tags: Vec<Tag>,
    pub notes: Vec<String>,
    pub body: String,
}

impl View for Article {
    type V = ArticleView;

    open spec fn view(&self) -> ArticleView {
        ArticleView {
            title: self.title@,
            subtitle: self.subtitle@,
            tags: self.tags@,
            notes: self.notes.deep_view(),
            body: self.body@,
        }
    }
}

impl Article {
    /// Creates an article with every field empty.
    pub fn new() -> (a: Article)
        ensures
            a@ == empty_article(),
    {
        let a = Article {
            title: String::new(),
            subtitle: String::new(),
            tags: Vec::new(),
            notes: Vec::new(),
            body: String::new(),
        };
        proof {
            assert(a.notes.deep_view() =~= Seq::<Seq<char>>::empty());
        }
        a
    }
}

} // verus!
