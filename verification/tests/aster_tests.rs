use aster::article::{Article, Tag};
use aster::errors::{ErrorKind, XVError};
use aster::notes::{gmi_notes, html_notes};
use aster::parse::parse_article;
use aster::render::{gen_gemtext, gen_html, render_document, render_gemtext, render_html};
use aster::split::parse;
use aster::template::Format;

fn article_with(title: &str, notes: &[&str], body: &str) -> Article {
    let mut a = Article::new();
    a.title = title.to_string();
    a.notes = notes.iter().map(|s| s.to_string()).collect();
    a.body = body.to_string();
    a
}

#[test]
fn footnotes_in_order_parse() {
    let a = parse_article("#1:first\n#2:second\n#3:third\n").unwrap();
    assert_eq!(a.notes, vec!["first", "second", "third"]);
    assert_eq!(a.title, "");
    assert_eq!(a.body, "");
}

#[test]
fn footnote_skipping_a_number_fails() {
    let e = parse_article("#1:first\n#3:third\n").unwrap_err();
    assert_eq!(e.kind, ErrorKind::InvalidFootnoteNumber);
    assert_eq!(e.msg, "Invalid footnote number");
}

#[test]
fn footnote_with_plus_sign_key() {
    let a = parse_article("#1:first\n#+2:second\n").unwrap();
    assert_eq!(a.notes, vec!["first", "second"]);
}

#[test]
fn split_respects_quotes() {
    let r = parse("story,\"a,b\",music", ',');
    assert_eq!(r, vec!["story", "\"a,b\"", "music"]);
}

#[test]
fn split_edge_cases() {
    assert_eq!(parse("", ','), Vec::<String>::new());
    assert_eq!(parse(",,a,,b,", ','), vec!["a", "b"]);
    assert_eq!(parse("\"a,b", ','), vec!["\"a,b"]);
}

#[test]
fn quoted_tag_token_is_invalid() {
    assert_eq!(Tag::from(&"\"a,b\"".to_string()), None);
    let e = parse_article("#tags:story,\"a,b\",music\n").unwrap_err();
    assert_eq!(e.kind, ErrorKind::InvalidTag);
    assert_eq!(e.msg, "Invalid tag");
}

#[test]
fn tag_lookup_trims_and_is_closed() {
    assert_eq!(Tag::from(&"story".to_string()), Some(Tag::Story));
    assert_eq!(Tag::from(&" project ".to_string()), Some(Tag::Project));
    assert_eq!(Tag::from(&"music".to_string()), Some(Tag::Music));
    assert_eq!(Tag::from(&"review".to_string()), Some(Tag::Review));
    assert_eq!(Tag::from(&"misc".to_string()), Some(Tag::Misc));
    assert_eq!(Tag::from(&"Story".to_string()), None);
}

#[test]
fn tags_accumulate_and_title_last_wins() {
    let a = parse_article("#title:one\n#tags:story, music\n#title:two\n#tags:misc\n").unwrap();
    assert_eq!(a.title, "two");
    assert_eq!(a.tags, vec![Tag::Story, Tag::Music, Tag::Misc]);
}

#[test]
fn title_substitution() {
    let art = article_with("World", &[], "");
    let out = render_gemtext(&art, "Hello $$title$_!", "2025-01-01").unwrap();
    assert_eq!(out, "Hello World!");
}

#[test]
fn unterminated_template_tag_fails() {
    let art = article_with("World", &[], "");
    let e = render_gemtext(&art, "Hello $$title", "2025-01-01").unwrap_err();
    assert_eq!(e.kind, ErrorKind::UnterminatedTag);
    assert_eq!(e.msg, "No closing tag found");
}

#[test]
fn declared_reference_validates() {
    let art = article_with("t", &["only note"], "See note [1] here.\n");
    let out = render_gemtext(&art, "$$body$_", "d").unwrap();
    assert_eq!(out, "See note [1] here. \n\n");
}

#[test]
fn skipped_reference_fails() {
    let art = article_with("t", &[], "See [2].\n");
    let e = render_gemtext(&art, "$$body$_", "d").unwrap_err();
    assert_eq!(e.kind, ErrorKind::SkippedAnnotation);
    assert_eq!(e.msg, "Annotation '1' skipped");
}

#[test]
fn html_reference_renders_without_validation() {
    let art = article_with("t", &[], "ref[7]");
    let out = render_html(&art, "##body#_", "d").unwrap();
    assert_eq!(out, "ref<a id=\"retnote7\" href=\"#note7\">[7]</a>");
}

#[test]
fn gemtext_same_reference_twice_then_next() {
    // the running count grows with every reference seen, not per new index
    let art = article_with("t", &["a", "b", "c"], "[1] and [1] and [3]\n");
    assert!(render_gemtext(&art, "$$body$_", "d").is_ok());
}

#[test]
fn unterminated_marker_fails_gemtext() {
    let art = article_with("t", &[], "see [1\n");
    let e = render_gemtext(&art, "$$body$_", "d").unwrap_err();
    assert_eq!(e.kind, ErrorKind::UnterminatedMarker);
    assert_eq!(e.msg, "No closing ']' found");
}

#[test]
fn unterminated_marker_fails_html() {
    let art = article_with("t", &[], "see [1");
    let e = render_html(&art, "##body#_", "d").unwrap_err();
    assert_eq!(e.kind, ErrorKind::UnterminatedMarker);
}

#[test]
fn malformed_reference_fails() {
    let art = article_with("t", &[], "see [abc]\n");
    let e = render_gemtext(&art, "$$body$_", "d").unwrap_err();
    assert_eq!(e.kind, ErrorKind::MalformedReference);
}

#[test]
fn unresolved_placeholder_fails() {
    let art = article_with("t", &[], "");
    let e = render_gemtext(&art, "$$bogus$_", "d").unwrap_err();
    assert_eq!(e.kind, ErrorKind::InvalidSubstitution);
    assert_eq!(e.msg, "Invalid subst 'bogus'");
}

#[test]
fn null_directive_fails() {
    let e = parse_article("#title\n").unwrap_err();
    assert_eq!(e.kind, ErrorKind::NullDirective);
    assert_eq!(e.msg, "Error: Null tag");
}

#[test]
fn unknown_directive_key_fails() {
    let e = parse_article("#foo:bar\n").unwrap_err();
    assert_eq!(e.kind, ErrorKind::InvalidDirective);
    assert_eq!(e.msg, "Invalid directive");
}

#[test]
fn empty_directive_key_fails() {
    let e = parse_article("#:v\n").unwrap_err();
    assert_eq!(e.kind, ErrorKind::InvalidDirective);
}

#[test]
fn huge_footnote_key_fails_as_directive() {
    let e = parse_article("#99999999999999999999999999:x\n").unwrap_err();
    assert_eq!(e.kind, ErrorKind::InvalidDirective);
}

#[test]
fn error_from_slice_keeps_message() {
    let e = XVError::from_slice("boom");
    assert_eq!(e.kind, ErrorKind::General);
    assert_eq!(e.msg, "boom");
}

#[test]
fn version_and_date_keys() {
    let art = article_with("t", &[], "");
    assert_eq!(render_gemtext(&art, "$$version$_", "d").unwrap(), "v.pre");
    assert_eq!(
        render_gemtext(&art, "$$date$_", "2024-12-31").unwrap(),
        "2024-12-31"
    );
    assert_eq!(render_html(&art, "##date#_", "2024-12-31").unwrap(), "2024-12-31");
}

#[test]
fn gmi_notes_format() {
    let art = article_with("t", &["first", "second"], "");
    assert_eq!(gmi_notes(&art), "* [1] : first\n* [2] : second\n");
    assert_eq!(
        render_gemtext(&art, "$$notes$_", "d").unwrap(),
        "* [1] : first\n* [2] : second\n"
    );
}

#[test]
fn html_notes_format() {
    let art = article_with("t", &["first", "second"], "");
    let expected = "<p id=\"note1\">[1]  first  <a href=\"#retnote1\">(return)</a></p>\n\
                    <p id=\"note2\">[2]  second  <a href=\"#retnote2\">(return)</a></p>\n";
    assert_eq!(html_notes(&art), expected);
    assert_eq!(render_html(&art, "##notes#_", "d").unwrap(), expected);
}

#[test]
fn paragraphs_join_and_rejoin() {
    let a = parse_article("a\nb\n\nc\n").unwrap();
    assert_eq!(a.body, "a\nb\n\nc\n");
    let out = render_gemtext(&a, "$$body$_", "d").unwrap();
    assert_eq!(out, "a b \n\nc \n\n");
}

#[test]
fn html_paragraph_breaks_become_line_breaks() {
    let art = article_with("t", &[], "a\n\nb");
    let out = render_html(&art, "##body#_", "d").unwrap();
    assert_eq!(out, "a<br /><br />b");
}

#[test]
fn crlf_lines_are_handled() {
    let a = parse_article("#title:T\r\nx\r\n").unwrap();
    assert_eq!(a.title, "T");
    assert_eq!(a.body, "x\n");
}

#[test]
fn pipeline_is_deterministic() {
    let text = "#title:T\n#1:note text\nbody [1] line\n";
    let templ = "$$title$_|$$body$_|$$notes$_";
    let a = render_document(text, templ, "2025-06-07", Format::Gmi).unwrap();
    let b = render_document(text, templ, "2025-06-07", Format::Gmi).unwrap();
    assert_eq!(a, b);
    assert_eq!(a, "T|body [1] line \n\n|* [1] : note text\n");
}

#[test]
fn rendering_twice_is_identical() {
    let art = article_with("T", &["n1"], "body [1] text\n");
    let once = render_gemtext(&art, "$$title$_:$$body$_", "2025-06-07").unwrap();
    let twice = render_gemtext(&art, "$$title$_:$$body$_", "2025-06-07").unwrap();
    assert_eq!(once, twice);
    let h1 = render_html(&art, "##title#_:##body#_", "2025-06-07").unwrap();
    let h2 = render_html(&art, "##title#_:##body#_", "2025-06-07").unwrap();
    assert_eq!(h1, h2);
}

#[test]
fn generators_use_the_clock_for_the_date_key_only() {
    let art = article_with("T", &[], "");
    assert_eq!(gen_gemtext(&art, "$$title$_").unwrap(), "T");
    assert_eq!(gen_html(&art, "##title#_").unwrap(), "T");
    // the date from the clock is some calendar date string
    let d = gen_gemtext(&art, "$$date$_").unwrap();
    assert!(d.len() >= 10);
}

#[test]
fn subtitle_and_body_keys_resolve() {
    let mut art = article_with("t", &[], "plain body\n");
    art.subtitle = "below the title".to_string();
    let out = render_gemtext(&art, "$$subtitle$_", "d").unwrap();
    assert_eq!(out, "below the title");
    let h = render_html(&art, "##subtitle#_", "d").unwrap();
    assert_eq!(h, "below the title");
}

#[test]
fn empty_placeholder_name_is_unresolved() {
    let art = article_with("t", &[], "");
    let e = render_gemtext(&art, "$$$_x", "d").unwrap_err();
    assert_eq!(e.kind, ErrorKind::InvalidSubstitution);
    assert_eq!(e.msg, "Invalid subst ''");
}

#[test]
fn zero_reference_never_skips() {
    let art = article_with("t", &[], "see [0]\n");
    assert!(render_gemtext(&art, "$$body$_", "d").is_ok());
}

#[test]
fn split_with_other_delimiter() {
    assert_eq!(parse("a b  c", ' '), vec!["a", "b", "c"]);
}

#[test]
fn directive_parse_and_render_full_document() {
    let text = "#title:My Post\n#subtitle:sub\n#tags:story\n#1:a note\nHello [1] world.\n\nSecond paragraph.\n";
    let a = parse_article(text).unwrap();
    assert_eq!(a.title, "My Post");
    assert_eq!(a.subtitle, "sub");
    assert_eq!(a.tags, vec![Tag::Story]);
    assert_eq!(a.notes, vec!["a note"]);
    assert_eq!(a.body, "Hello [1] world.\n\nSecond paragraph.\n");
    let out = render_gemtext(&a, "# $$title$_\n$$body$_$$notes$_", "d").unwrap();
    assert_eq!(
        out,
        "# My Post\nHello [1] world. \n\nSecond paragraph. \n\n* [1] : a note\n"
    );
}
