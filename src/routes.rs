//! Routing: which page, asset, image or post a request path asks for.
use vstd::prelude::*;
use crate::registry::{BlogLinkInfo, LinkInfo, LinkView, links_view};
use crate::text::{chars_of, find_last_char, last_index, same_text, string_of};

verus! {

/// What a request is answered with.
#[derive(Debug, Clone, Copy, PartialEq, Eq, Structural)]
pub enum Route {
    Index,
    Blog,
    Cv,
    Projects,
    MainCss,
    TomorrowNightCss,
    HighlightJs,
    Robots,
    /// An image, named by the last segment of the path.
    Image,
    /// A post, named by the path.
    Post,
    NotFound,
}

/// The first position at or after `i` where `c` stands.
pub open spec fn index_from(s: Seq<char>, c: char, i: int) -> Option<int>
    decreases s.len() - i,
{
    if i < 0 || i >= s.len() {
        None
    } else if s[i] == c {
        Some(i)
    } else {
        index_from(s, c, i + 1)
    }
}

/// The text between the first `.` of the path and the next `.` (or the end).
pub open spec fn dotted_segment(p: Seq<char>) -> Option<Seq<char>> {
    match index_from(p, '.', 0) {
        Some(d) => Some(
            p.subrange(
                d + 1,
                match index_from(p, '.', d + 1) {
                    Some(e) => e,
                    None => p.len() as int,
                },
            ),
        ),
        None => None,
    }
}

/// The route of a request: fixed pages and assets first; then a path with a
/// dot is an image if the text after its first dot is `png` or `svg`, and
/// is not found otherwise; a path without a dot names a post. Only `GET`
/// requests are answered.
pub open spec fn route_spec(is_get: bool, p: Seq<char>) -> Route {
    if !is_get {
        Route::NotFound
    } else if p == "/"@ || p == "/index.html"@ {
        Route::Index
    } else if p == "/blog"@ {
        Route::Blog
    } else if p == "/cv"@ {
        Route::Cv
    } else if p == "/projects"@ {
        Route::Projects
    } else if p == "/main.css"@ {
        Route::MainCss
    } else if p == "/tomorrow-night.min.css"@ {
        Route::TomorrowNightCss
    } else if p == "/highlight.pack.js"@ {
        Route::HighlightJs
    } else if p == "/robots.txt"@ {
        Route::Robots
    } else {
        match dotted_segment(p) {
            Some(e) => if e == "png"@ || e == "svg"@ {
                Route::Image
            } else {
                Route::NotFound
            },
            None => Route::Post,
        }
    }
}

fn index_from_exec(s: &Vec<char>, c: char, i: usize) -> (r: Option<usize>)
    ensures
        match r {
            Some(d) => i <= d < s@.len() && index_from(s@, c, i as int) == Some(d as int),
            None => index_from(s@, c, i as int) is None,
        },
{
    let mut j = i;
    while j < s.len() && s[j] != c
        invariant
            i <= j,
            index_from(s@, c, i as int) == index_from(s@, c, j as int),
        decreases s@.len() - j,
    {
        j = j + 1;
    }
    if j < s.len() {
        Some(j)
    } else {
        None
    }
}

/// Decides how a request is answered.
pub fn router(is_get: bool, path: &str) -> (r: Route)
    ensures
        r == route_spec(is_get, path@),
{
    if !is_get {
        return Route::NotFound;
    }
    if same_text(path, "/") || same_text(path, "/index.html") {
        return Route::Index;
    }
    if same_text(path, "/blog") {
        return Route::Blog;
    }
    if same_text(path, "/cv") {
        return Route::Cv;
    }
    if same_text(path, "/projects") {
        return Route::Projects;
    }
    if same_text(path, "/main.css") {
        return Route::MainCss;
    }
    if same_text(path, "/tomorrow-night.min.css") {
        return Route::TomorrowNightCss;
    }
    if same_text(path, "/highlight.pack.js") {
        return Route::HighlightJs;
    }
    if same_text(path, "/robots.txt") {
        return Route::Robots;
    }
    let p = chars_of(path);
    match index_from_exec(&p, '.', 0) {
        Some(d) => {
            let end = match index_from_exec(&p, '.', d + 1) {
                Some(e) => e,
                None => p.len(),
            };
            let seg = string_of(p.as_slice(), d + 1, end);
            if same_text(seg.as_str(), "png") || same_text(seg.as_str(), "svg") {
                Route::Image
            } else {
                Route::NotFound
            }
        },
        None => Route::Post,
    }
}

/// The images that the site serves.
#[derive(Debug, Clone, Copy, PartialEq, Eq, Structural)]
pub enum Image {
    DevBadge,
    Favicon,
    LinkedinIcon,
    Github,
    /// An SVG name that the site does not hold: answered with an empty body.
    Empty,
}

/// The last segment of a path.
pub open spec fn file_name_of(p: Seq<char>) -> Seq<char> {
    match last_index(p, '/', p.len() as int) {
        Some(s) => p.subrange(s + 1, p.len() as int),
        None => p,
    }
}

/// The extension of a file name: what follows its last `.`, unless that dot
/// opens the name.
pub open spec fn extension_of(n: Seq<char>) -> Option<Seq<char>> {
    match last_index(n, '.', n.len() as int) {
        Some(q) => if q > 0 {
            Some(n.subrange(q + 1, n.len() as int))
        } else {
            None
        },
        None => None,
    }
}

/// The image a path asks for: an SVG by its file name, `None` for anything
/// that is not an SVG.
pub open spec fn image_spec(p: Seq<char>) -> Option<Image> {
    let n = file_name_of(p);
    if extension_of(n) == Some("svg"@) {
        Some(
            if n == "dev-badge.svg"@ {
                Image::DevBadge
            } else if n == "favicon.svg"@ {
                Image::Favicon
            } else if n == "linkedin-icon.svg"@ {
                Image::LinkedinIcon
            } else if n == "github.svg"@ {
                Image::Github
            } else {
                Image::Empty
            },
        )
    } else {
        None
    }
}

/// Decides which image a path asks for.
pub fn image(path: &str) -> (r: Option<Image>)
    ensures
        r == image_spec(path@),
{
    let p = chars_of(path);
    let name = match find_last_char(&p, '/') {
        Some(s) => string_of(p.as_slice(), s + 1, p.len()),
        None => string_of(p.as_slice(), 0, p.len()),
    };
    assert(p@.subrange(0, p@.len() as int) =~= p@);
    assert(name@ == file_name_of(path@));
    let n = chars_of(name.as_str());
    let is_svg = match find_last_char(&n, '.') {
        Some(q) => if q > 0 {
            let ext = string_of(n.as_slice(), q + 1, n.len());
            same_text(ext.as_str(), "svg")
        } else {
            false
        },
        None => false,
    };
    if !is_svg {
        return None;
    }
    let nm = name.as_str();
    if same_text(nm, "dev-badge.svg") {
        Some(Image::DevBadge)
    } else if same_text(nm, "favicon.svg") {
        Some(Image::Favicon)
    } else if same_text(nm, "linkedin-icon.svg") {
        Some(Image::LinkedinIcon)
    } else if same_text(nm, "github.svg") {
        Some(Image::Github)
    } else {
        Some(Image::Empty)
    }
}

/// The link's path is `/` followed by its slug.
pub open spec fn path_names(p: Seq<char>, l: LinkView) -> bool {
    p == "/"@ + l.url_name
}

pub open spec fn first_named(links: Seq<LinkView>, p: Seq<char>) -> Option<LinkView>
    decreases links.len(),
{
    if links.len() == 0 {
        None
    } else if path_names(p, links[0]) {
        Some(links[0])
    } else {
        first_named(links.drop_first(), p)
    }
}

fn find_named(links: &Vec<LinkInfo>, slug: &str) -> (r: Option<usize>)
    ensures
        match r {
            Some(i) => i < links@.len() && first_named(links_view(links@), "/"@ + slug@) == Some(
                links@[i as int]@,
            ),
            None => first_named(links_view(links@), "/"@ + slug@) is None,
        },
{
    let ghost lv = links_view(links@);
    let ghost p = "/"@ + slug@;
    let mut i: usize = 0;
    assert(lv.skip(0) =~= lv);
    while i < links.len()
        invariant
            i <= links@.len(),
            lv == links_view(links@),
            p == "/"@ + slug@,
            first_named(lv, p) == first_named(lv.skip(i as int), p),
        decreases links@.len() - i,
    {
        assert(lv.skip(i as int).drop_first() =~= lv.skip(i + 1));
        assert(lv.skip(i as int)[0] == links@[i as int]@);
        proof {
            assert((p == "/"@ + links@[i as int].url_name@) == (slug@ == links@[i as int].url_name@)) by {
                reveal_strlit("/");
                assert(("/"@ + slug@).skip(1) =~= slug@);
                assert(("/"@ + links@[i as int].url_name@).skip(1) =~= links@[i as int].url_name@);
                if p == "/"@ + links@[i as int].url_name@ {
                    assert(slug@ =~= p.skip(1));
                    assert(links@[i as int].url_name@ =~= p.skip(1));
                }
            }
        }
        if same_text(links[i].url_name.as_str(), slug) {
            return Some(i);
        }
        i = i + 1;
    }
    None
}

impl BlogLinkInfo {
    /// The post that a path names: `/` and its slug, among the published
    /// posts first, then among the drafts.
    pub fn find(&self, path: &str) -> (r: Option<LinkInfo>)
        ensures
            match r {
                Some(l) => Some(l@) == (if first_named(links_view(self.published@), path@) is Some {
                    first_named(links_view(self.published@), path@)
                } else {
                    first_named(links_view(self.drafts@), path@)
                }),
                None => first_named(links_view(self.published@), path@) is None && first_named(
                    links_view(self.drafts@),
                    path@,
                ) is None,
            },
    {
        let p = chars_of(path);
        proof {
            reveal_strlit("/");
        }
        if p.len() == 0 || p[0] != '/' {
            proof {
                lemma_first_named_needs_slash(links_view(self.published@), path@);
                lemma_first_named_needs_slash(links_view(self.drafts@), path@);
            }
            return None;
        }
        let slug = string_of(p.as_slice(), 1, p.len());
        assert(path@ =~= "/"@ + slug@);
        match find_named(&self.published, slug.as_str()) {
            Some(i) => Some(self.published[i].copy()),
            None => match find_named(&self.drafts, slug.as_str()) {
                Some(i) => Some(self.drafts[i].copy()),
                None => None,
            },
        }
    }
}

proof fn lemma_first_named_needs_slash(links: Seq<LinkView>, p: Seq<char>)
    requires
        p.len() == 0 || p[0] != '/',
    ensures
        first_named(links, p) is None,
    decreases links.len(),
{
    reveal_strlit("/");
    if links.len() > 0 {
        assert(!path_names(p, links[0])) by {
            if path_names(p, links[0]) {
                assert(p[0] == ("/"@ + links[0].url_name)[0]);
            }
        }
        lemma_first_named_needs_slash(links.drop_first(), p);
    }
}

} // verus!
