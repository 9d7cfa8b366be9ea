use deciduously_com::blog::{Blog, SourceFile};
use deciduously_com::front_matter::BuildError;
use deciduously_com::metadata::parse_metadata_chars;
use deciduously_com::post::{BlogPost, BlogPostFrontMatter};
use deciduously_com::registry::BlogLinkInfo;
use deciduously_com::text::chars_of;

fn pairs(list: &[(&str, &str)]) -> Vec<(String, String)> {
    list.iter()
        .map(|(k, v)| (k.to_string(), v.to_string()))
        .collect()
}

fn front_matter(title: Option<&str>, date: Option<&str>, cover: Option<&str>) -> BlogPostFrontMatter {
    BlogPostFrontMatter {
        cover_image: cover.map(|s| s.to_string()),
        date: date.map(|s| s.to_string()),
        description: None,
        edited: None,
        published: true,
        tags: String::new(),
        title: title.map(|s| s.to_string()),
    }
}

#[test]
fn finish_uses_given_parse_results() {
    let p = BlogPost::finish(
        3,
        "slug".to_string(),
        front_matter(Some("T"), Some("any text"), Some("any url")),
        "md".to_string(),
        Some(42),
        Some("https://x.org/".to_string()),
    )
    .unwrap();
    assert_eq!(p.id, 3);
    assert_eq!(p.date, Some(42));
    assert_eq!(p.cover_image.as_deref(), Some("https://x.org/"));
    assert_eq!(p.title, "T");
    assert_eq!(p.url_name, "slug");
    assert_eq!(p.markdown, "md");
    assert!(p.published);
}

#[test]
fn finish_ignores_results_for_absent_fields() {
    let p = BlogPost::finish(
        0,
        "s".to_string(),
        front_matter(Some("T"), None, None),
        String::new(),
        Some(42),
        Some("https://x.org/".to_string()),
    )
    .unwrap();
    assert_eq!(p.date, None);
    assert_eq!(p.cover_image, None);
}

#[test]
fn finish_reports_errors_in_order() {
    let fm = || front_matter(None, Some("d"), Some("c"));
    let r = BlogPost::finish(0, "s".to_string(), fm(), String::new(), None, None);
    assert_eq!(r.unwrap_err(), BuildError::MissingRequiredField);
    let fm = || front_matter(Some("T"), Some("d"), Some("c"));
    let r = BlogPost::finish(0, "s".to_string(), fm(), String::new(), None, None);
    assert_eq!(r.unwrap_err(), BuildError::InvalidDateFormat);
    let r = BlogPost::finish(0, "s".to_string(), fm(), String::new(), Some(1), None);
    assert_eq!(r.unwrap_err(), BuildError::InvalidCoverImage);
}

#[test]
fn front_matter_last_value_wins() {
    let fm = BlogPostFrontMatter::from_pairs(&pairs(&[
        ("title", "First"),
        ("published", "true"),
        ("other", "x"),
        ("title", "Second"),
        ("published", "no"),
        ("tags", "a"),
    ]));
    assert_eq!(fm.title.as_deref(), Some("Second"));
    assert!(!fm.published);
    assert_eq!(fm.tags, "a");
    assert_eq!(fm.date, None);
    assert_eq!(fm.description, None);
}

#[test]
fn metadata_lines_parse_in_order() {
    let text = "  title:  A: B  \n\n\tkey_2 = \"quoted value\"\r\nempty:\nq = \"\n";
    let parsed = parse_metadata_chars(&chars_of(text)).unwrap();
    assert_eq!(
        parsed,
        pairs(&[
            ("title", "A: B"),
            ("key_2", "quoted value"),
            ("empty", ""),
            ("q", "\""),
        ])
    );
    assert_eq!(parse_metadata_chars(&chars_of("")).unwrap(), Vec::new());
    assert_eq!(
        parse_metadata_chars(&chars_of("ok: 1\n: no key\n")).unwrap_err(),
        BuildError::MalformedFrontMatter
    );
}

#[test]
fn paths_of_all_posts() {
    let source = |name: &str, meta: &str| SourceFile {
        name: name.to_string(),
        text: Some(format!("---\n{}---\n", meta)),
    };
    let blog = Blog::new(vec![
        source("b.md", "title: B\npublished: true\n"),
        source("a.md", "title: A\n"),
        source("c.md", "title: C\npublished: true\n"),
    ])
    .unwrap();
    let links = BlogLinkInfo::new(&blog);
    assert_eq!(links.paths(), vec!["/c", "/b", "/a"]);
}
