use deciduously_com::blog::{Blog, SourceFile};
use deciduously_com::front_matter::{find_yaml_block, parse_and_find_content, BuildError};
use deciduously_com::post::{file_stem, BlogPost};
use deciduously_com::registry::BlogLinkInfo;

fn source(name: &str, text: &str) -> SourceFile {
    SourceFile {
        name: name.to_string(),
        text: Some(text.to_string()),
    }
}

fn post_text(meta: &str, body: &str) -> String {
    format!("---\n{}---\n{}", meta, body)
}

#[test]
fn scenario_hello_is_published() {
    let text = post_text("title = \"Hello\"\npublished = \"true\"\n", "# Hi");
    let blog = Blog::new(vec![source("hello.md", &text)]).unwrap();
    assert_eq!(blog.drafts.len(), 0);
    assert_eq!(blog.published.len(), 1);
    let post = &blog.published[0];
    assert_eq!(post.url_name, "hello");
    assert_eq!(post.title, "Hello");
    assert_eq!(post.markdown, "# Hi");
    assert_eq!(post.id, 0);
    assert!(post.published);
}

#[test]
fn scenario_missing_published_is_draft() {
    let text = post_text("title: Hello\n", "# Hi");
    let blog = Blog::new(vec![source("hello.md", &text)]).unwrap();
    assert_eq!(blog.published.len(), 0);
    assert_eq!(blog.drafts.len(), 1);
    assert!(!blog.drafts[0].published);
}

#[test]
fn scenario_missing_marker_aborts_scan() {
    let good = post_text("title: Good\npublished: true\n", "body");
    let r = Blog::new(vec![
        source("good.md", &good),
        source("bad.md", "title: Bad\n# no marker"),
    ]);
    assert_eq!(r.unwrap_err(), BuildError::MalformedFrontMatter);
}

#[test]
fn scenario_duplicate_slugs_reject_build() {
    let a = post_text("title: A\n", "a");
    let b = post_text("title: B\n", "b");
    let r = Blog::new(vec![source("same.md", &a), source("same.txt", &b)]);
    assert_eq!(r.unwrap_err(), BuildError::DuplicateSlug);
}

#[test]
fn round_trip_recovers_document() {
    let doc = "---\ntitle: X\ntags: a, b\n---\nbody\n---\nmore\n";
    let (meta, body) = parse_and_find_content(doc).unwrap();
    assert_eq!(meta, "title: X\ntags: a, b\n");
    assert_eq!(body, "body\n---\nmore\n");
    assert_eq!(format!("---\n{}---\n{}", meta, body), doc);
}

#[test]
fn body_is_kept_byte_exact() {
    let doc = "---\ntitle: X\n---\n  spaced é body \r\n\n";
    let (_, body) = parse_and_find_content(doc).unwrap();
    assert_eq!(body, "  spaced é body \r\n\n");
}

#[test]
fn missing_opening_marker_fails() {
    assert_eq!(
        parse_and_find_content("title: X\n---\nbody").unwrap_err(),
        BuildError::MalformedFrontMatter
    );
    assert_eq!(
        parse_and_find_content(" ---\ntitle: X\n---\nbody").unwrap_err(),
        BuildError::MalformedFrontMatter
    );
    assert_eq!(
        parse_and_find_content("").unwrap_err(),
        BuildError::MalformedFrontMatter
    );
}

#[test]
fn missing_closing_marker_fails() {
    assert_eq!(
        parse_and_find_content("---\ntitle: X\nbody").unwrap_err(),
        BuildError::MalformedFrontMatter
    );
    assert_eq!(find_yaml_block("---\ntitle: X\nbody"), None);
}

#[test]
fn yaml_block_positions() {
    assert_eq!(find_yaml_block("---\n---\nbody"), Some((4, 4, 8)));
    assert_eq!(find_yaml_block("---\nab\n---\nc"), Some((4, 7, 11)));
    assert_eq!(find_yaml_block("no marker"), None);
}

fn published_for(value: Option<&str>) -> bool {
    let meta = match value {
        Some(v) => format!("title: T\npublished: {}\n", v),
        None => "title: T\n".to_string(),
    };
    BlogPost::new(0, "t.md", &post_text(&meta, "")).unwrap().published
}

#[test]
fn published_only_for_exact_true() {
    assert!(published_for(Some("true")));
    assert!(published_for(Some("\"true\"")));
    assert!(!published_for(Some("True")));
    assert!(!published_for(Some("1")));
    assert!(!published_for(Some("yes")));
    assert!(!published_for(Some("")));
    assert!(!published_for(None));
}

#[test]
fn ids_follow_name_order() {
    let blog = Blog::new(vec![
        source("c.md", &post_text("title: C\npublished: true\n", "")),
        source("a.md", &post_text("title: A\n", "")),
        source("b.md", &post_text("title: B\npublished: true\n", "")),
    ])
    .unwrap();
    assert_eq!(blog.drafts.len(), 1);
    assert_eq!(blog.drafts[0].url_name, "a");
    assert_eq!(blog.drafts[0].id, 0);
    assert_eq!(blog.published[0].url_name, "b");
    assert_eq!(blog.published[0].id, 1);
    assert_eq!(blog.published[1].url_name, "c");
    assert_eq!(blog.published[1].id, 2);
    assert_eq!(blog.total(), 3);
}

#[test]
fn scan_partitions_every_source_once() {
    let mut sources = Vec::new();
    for i in 0..7 {
        let published = if i % 3 == 0 { "true" } else { "false" };
        let meta = format!("title: Post {}\npublished: {}\n", i, published);
        sources.push(source(&format!("post{}.md", i), &post_text(&meta, "text")));
    }
    let blog = Blog::new(sources).unwrap();
    assert_eq!(blog.drafts.len() + blog.published.len(), 7);
    let mut ids: Vec<usize> = blog
        .drafts
        .iter()
        .chain(blog.published.iter())
        .map(|p| p.id)
        .collect();
    ids.sort();
    assert_eq!(ids, (0..7).collect::<Vec<usize>>());
    assert!(blog.drafts.iter().all(|p| !p.published));
    assert!(blog.published.iter().all(|p| p.published));
    for d in &blog.drafts {
        assert!(blog.published.iter().all(|p| p.url_name != d.url_name));
    }
}

#[test]
fn empty_directory_gives_empty_blog() {
    let blog = Blog::new(Vec::new()).unwrap();
    assert_eq!(blog.total(), 0);
    let links = BlogLinkInfo::new(&blog);
    assert!(links.drafts.is_empty());
    assert!(links.published.is_empty());
}

#[test]
fn unreadable_source_aborts_scan() {
    let r = Blog::new(vec![
        source("ok.md", &post_text("title: Ok\n", "")),
        SourceFile {
            name: "broken.md".to_string(),
            text: None,
        },
    ]);
    assert_eq!(r.unwrap_err(), BuildError::UnreadableSource);
}

#[test]
fn missing_title_is_rejected() {
    let r = BlogPost::new(0, "x.md", &post_text("published: true\n", "body"));
    assert_eq!(r.unwrap_err(), BuildError::MissingRequiredField);
}

#[test]
fn invalid_date_is_rejected() {
    let r = BlogPost::new(0, "x.md", &post_text("title: X\ndate: March 4th\n", ""));
    assert_eq!(r.unwrap_err(), BuildError::InvalidDateFormat);
}

#[test]
fn invalid_cover_image_is_rejected() {
    let r = BlogPost::new(0, "x.md", &post_text("title: X\ncover_image: not a url\n", ""));
    assert_eq!(r.unwrap_err(), BuildError::InvalidCoverImage);
}

#[test]
fn malformed_metadata_line_is_rejected() {
    let r = BlogPost::new(0, "x.md", &post_text("title: X\n- item\n", ""));
    assert_eq!(r.unwrap_err(), BuildError::MalformedFrontMatter);
    let r = BlogPost::new(0, "x.md", &post_text("title X\n", ""));
    assert_eq!(r.unwrap_err(), BuildError::MalformedFrontMatter);
}

#[test]
fn dates_parse_as_rfc3339() {
    let p = BlogPost::new(0, "x.md", &post_text("title: X\ndate: 2021-03-04T05:06:07Z\n", ""))
        .unwrap();
    assert_eq!(p.date, Some(1614834367));
    let p = BlogPost::new(
        0,
        "x.md",
        &post_text("title: X\ndate: \"2020-01-01T00:00:00+01:00\"\n", ""),
    )
    .unwrap();
    assert_eq!(p.date, Some(1577833200));
}

#[test]
fn cover_image_is_normalized() {
    let p = BlogPost::new(
        0,
        "x.md",
        &post_text("title: X\ncover_image: HTTPS://Example.com\n", ""),
    )
    .unwrap();
    assert_eq!(p.cover_image.as_deref(), Some("https://example.com/"));
}

#[test]
fn all_recognised_fields_are_read() {
    let meta = "title:  Spaced Title  \n\ndescription = \"About it\"\ntags: rust, web\nedited: yesterday\nunknown: ignored\ntitle: Final Title\n";
    let p = BlogPost::new(5, "dir.post.md", &post_text(meta, "Body")).unwrap();
    assert_eq!(p.id, 5);
    assert_eq!(p.url_name, "dir.post");
    assert_eq!(p.title, "Final Title");
    assert_eq!(p.description.as_deref(), Some("About it"));
    assert_eq!(p.tags, "rust, web");
    assert_eq!(p.edited.as_deref(), Some("yesterday"));
    assert_eq!(p.cover_image, None);
    assert_eq!(p.date, None);
    assert_eq!(p.markdown, "Body");
    assert!(!p.published);
}

#[test]
fn file_stems() {
    assert_eq!(file_stem("hello.md"), "hello");
    assert_eq!(file_stem("a.b.c"), "a.b");
    assert_eq!(file_stem(".hidden"), ".hidden");
    assert_eq!(file_stem("noext"), "noext");
    assert_eq!(file_stem("trailing."), "trailing");
}

#[test]
fn template_name_of_post() {
    let p = BlogPost::new(0, "green-squares.md", &post_text("title: G\n", "")).unwrap();
    assert_eq!(p.get_template(), "post_green-squares.html");
}
