use deciduously_com::blog::{Blog, SourceFile};
use deciduously_com::registry::BlogLinkInfo;
use deciduously_com::routes::{image, router, Image, Route};

fn source(name: &str, meta: &str) -> SourceFile {
    SourceFile {
        name: name.to_string(),
        text: Some(format!("---\n{}---\nbody", meta)),
    }
}

fn sample_blog() -> Blog {
    Blog::new(vec![
        source("old.md", "title: Old\npublished: true\ndate: 2019-01-01T00:00:00Z\n"),
        source("new.md", "title: New\npublished: true\ndate: 2022-06-01T00:00:00Z\n"),
        source("undated.md", "title: Undated\npublished: true\n"),
        source("same1.md", "title: Same 1\npublished: true\ndate: 2020-01-01T00:00:00Z\n"),
        source("same2.md", "title: Same 2\npublished: true\ndate: 2020-01-01T00:00:00Z\n"),
        source("draft.md", "title: Draft\n"),
    ])
    .unwrap()
}

#[test]
fn listing_is_newest_first() {
    let links = BlogLinkInfo::new(&sample_blog());
    let slugs: Vec<&str> = links.published.iter().map(|l| l.url_name.as_str()).collect();
    assert_eq!(slugs, vec!["new", "same2", "same1", "old", "undated"]);
    assert_eq!(links.drafts.len(), 1);
    assert_eq!(links.drafts[0].url_name, "draft");
    assert_eq!(links.drafts[0].title, "Draft");
    assert_eq!(links.drafts[0].id, 0);
}

#[test]
fn listing_twice_gives_same_order() {
    let blog = sample_blog();
    let a = BlogLinkInfo::new(&blog);
    let b = BlogLinkInfo::new(&blog);
    let ids_a: Vec<usize> = a.published.iter().map(|l| l.id).collect();
    let ids_b: Vec<usize> = b.published.iter().map(|l| l.id).collect();
    assert_eq!(ids_a, ids_b);
}

#[test]
fn find_by_path() {
    let links = BlogLinkInfo::new(&sample_blog());
    let found = links.find("/new").unwrap();
    assert_eq!(found.title, "New");
    let draft = links.find("/draft").unwrap();
    assert_eq!(draft.title, "Draft");
    assert!(links.find("/missing").is_none());
    assert!(links.find("new").is_none());
    assert!(links.find("/new/").is_none());
    assert!(links.find("").is_none());
}

#[test]
fn routes_of_paths() {
    assert_eq!(router(true, "/"), Route::Index);
    assert_eq!(router(true, "/index.html"), Route::Index);
    assert_eq!(router(true, "/blog"), Route::Blog);
    assert_eq!(router(true, "/cv"), Route::Cv);
    assert_eq!(router(true, "/projects"), Route::Projects);
    assert_eq!(router(true, "/main.css"), Route::MainCss);
    assert_eq!(router(true, "/tomorrow-night.min.css"), Route::TomorrowNightCss);
    assert_eq!(router(true, "/highlight.pack.js"), Route::HighlightJs);
    assert_eq!(router(true, "/robots.txt"), Route::Robots);
    assert_eq!(router(true, "/favicon.svg"), Route::Image);
    assert_eq!(router(true, "/pic.png"), Route::Image);
    assert_eq!(router(true, "/a.svg.gz"), Route::Image);
    assert_eq!(router(true, "/other.css"), Route::NotFound);
    assert_eq!(router(true, "/hello"), Route::Post);
    assert_eq!(router(false, "/"), Route::NotFound);
    assert_eq!(router(false, "/hello"), Route::NotFound);
}

#[test]
fn images_by_file_name() {
    assert_eq!(image("/favicon.svg"), Some(Image::Favicon));
    assert_eq!(image("/img/dev-badge.svg"), Some(Image::DevBadge));
    assert_eq!(image("/linkedin-icon.svg"), Some(Image::LinkedinIcon));
    assert_eq!(image("/github.svg"), Some(Image::Github));
    assert_eq!(image("/unknown.svg"), Some(Image::Empty));
    assert_eq!(image("/pic.png"), None);
    assert_eq!(image("/.svg"), None);
}
