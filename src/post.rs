//! One post: its typed metadata, and how a document becomes a post.
use vstd::prelude::*;
use crate::front_matter::{BuildError, marker_at, split_chars, split_document};
use crate::metadata::{Pair, pairs_view, parse_metadata, parse_metadata_chars};
use crate::text::{chars_of, find_last_char, join_text, last_index, same_text, string_of};

verus! {

/// The Unix time, in seconds, of an RFC 3339 timestamp, or `None` if the
/// text is not one.
pub uninterp spec fn rfc3339_seconds(s: Seq<char>) -> Option<i64>;

/// The serialization of the absolute URL that the text parses to, or `None`
/// if it does not parse.
pub uninterp spec fn url_serialization(s: Seq<char>) -> Option<Seq<char>>;

/// Relies on `time::OffsetDateTime::parse` with the RFC 3339 format, and on
/// `unix_timestamp` of its result: the seconds since the epoch, or `None` when
/// the text does not parse.
#[verifier::external_body]
fn parse_date(s: &str) -> (r: Option<i64>)
    ensures
        r == rfc3339_seconds(s@),
{
    time::OffsetDateTime::parse(s, &time::format_description::well_known::Rfc3339).ok().map(
        |d| d.unix_timestamp(),
    )
}

/// Relies on `url::Url::parse`: the URL's serialization (`Url::as_str`), or
/// `None` when the text is not an absolute URL.
#[verifier::external_body]
fn parse_url(s: &str) -> (r: Option<String>)
    ensures
        match r {
            Some(u) => url_serialization(s@) == Some(u@),
            None => url_serialization(s@) is None,
        },
{
    url::Url::parse(s).ok().map(|u| u.as_str().to_string())
}

pub open spec fn opt_view(o: Option<String>) -> Option<Seq<char>> {
    match o {
        Some(s) => Some(s@),
        None => None,
    }
}

/// The value of the last pair with the key `k`: a later pair overrides an
/// earlier one.
pub open spec fn lookup(pairs: Seq<Pair>, k: Seq<char>) -> Option<Seq<char>>
    decreases pairs.len(),
{
    if pairs.len() == 0 {
        None
    } else if pairs.last().0 == k {
        Some(pairs.last().1)
    } else {
        lookup(pairs.drop_last(), k)
    }
}

/// The metadata that a post's document states, as written.
#[derive(Debug, Clone)]
pub struct BlogPostFrontMatter {
    pub cover_image: Option<String>,
    pub date: Option<String>,
    pub description: Option<String>,
    pub edited: Option<String>,
    pub published: bool,
    pub tags: String,
    pub title: Option<String>,
}

pub ghost struct FrontMatterView {
    pub cover_image: Option<Seq<char>>,
    pub date: Option<Seq<char>>,
    pub description: Option<Seq<char>>,
    pub edited: Option<Seq<char>>,
    pub published: bool,
    pub tags: Seq<char>,
    pub title: Option<Seq<char>>,
}

impl View for BlogPostFrontMatter {
    type V = FrontMatterView;

    open spec fn view(&self) -> FrontMatterView {
        FrontMatterView {
            cover_image: opt_view(self.cover_image),
            date: opt_view(self.date),
            description: opt_view(self.description),
            edited: opt_view(self.edited),
            published: self.published,
            tags: self.tags@,
            title: opt_view(self.title),
        }
    }
}

/// The recognised keys of the metadata; any other key is ignored. A post is
/// published exactly when its `published` value is the text `true`.
pub open spec fn front_matter_of(pairs: Seq<Pair>) -> FrontMatterView {
    FrontMatterView {
        cover_image: lookup(pairs, "cover_image"@),
        date: lookup(pairs, "date"@),
        description: lookup(pairs, "description"@),
        edited: lookup(pairs, "edited"@),
        published: lookup(pairs, "published"@) == Some("true"@),
        tags: match lookup(pairs, "tags"@) {
            Some(t) => t,
            None => Seq::empty(),
        },
        title: lookup(pairs, "title"@),
    }
}

/// One post of the blog.
#[derive(Debug, Clone)]
pub struct BlogPost {
    pub cover_image: Option<String>,
    pub date: Option<i64>,
    pub description: Option<String>,
    pub edited: Option<String>,
    pub id: usize,
    pub published: bool,
    pub markdown: String,
    pub url_name: String,
    pub tags: String,
    pub title: String,
}

pub ghost struct PostView {
    pub cover_image: Option<Seq<char>>,
    pub date: Option<i64>,
    pub description: Option<Seq<char>>,
    pub edited: Option<Seq<char>>,
    pub id: int,
    pub published: bool,
    pub markdown: Seq<char>,
    pub url_name: Seq<char>,
    pub tags: Seq<char>,
    pub title: Seq<char>,
}

impl View for BlogPost {
    type V = PostView;

    open spec fn view(&self) -> PostView {
        PostView {
            cover_image: opt_view(self.cover_image),
            date: self.date,
            description: opt_view(self.description),
            edited: opt_view(self.edited),
            id: self.id as int,
            published: self.published,
            markdown: self.markdown@,
            url_name: self.url_name@,
            tags: self.tags@,
            title: self.title@,
        }
    }
}

/// The post made of checked metadata, given what its `date` parsed to and
/// what its `cover_image` parsed to (each `None` when absent or invalid).
pub open spec fn finish_spec(
    id: int,
    url_name: Seq<char>,
    fm: FrontMatterView,
    markdown: Seq<char>,
    date: Option<i64>,
    cover_image: Option<Seq<char>>,
) -> Result<PostView, BuildError> {
    if fm.title is None {
        Err(BuildError::MissingRequiredField)
    } else if fm.date is Some && date is None {
        Err(BuildError::InvalidDateFormat)
    } else if fm.cover_image is Some && cover_image is None {
        Err(BuildError::InvalidCoverImage)
    } else {
        Ok(
            PostView {
                cover_image: if fm.cover_image is Some {
                    cover_image
                } else {
                    None
                },
                date: if fm.date is Some {
                    date
                } else {
                    None
                },
                description: fm.description,
                edited: fm.edited,
                id,
                published: fm.published,
                markdown,
                url_name,
                tags: fm.tags,
                title: fm.title->0,
            },
        )
    }
}

/// The post that metadata pairs and a body make, with the outside parsers
/// applied to `date` and `cover_image`.
pub open spec fn assemble(id: int, url_name: Seq<char>, pairs: Seq<Pair>, markdown: Seq<char>) -> Result<
    PostView,
    BuildError,
> {
    let fm = front_matter_of(pairs);
    finish_spec(
        id,
        url_name,
        fm,
        markdown,
        match fm.date {
            Some(d) => rfc3339_seconds(d),
            None => None,
        },
        match fm.cover_image {
            Some(c) => url_serialization(c),
            None => None,
        },
    )
}

/// The stem of a file name: what comes before its last `.`, unless that dot
/// opens the name.
pub open spec fn slug_of(name: Seq<char>) -> Seq<char> {
    match last_index(name, '.', name.len() as int) {
        Some(p) => if p > 0 {
            name.subrange(0, p)
        } else {
            name
        },
        None => name,
    }
}

/// The post that the source named `name` with the text `text` gives, with
/// the id `id`.
pub open spec fn post_spec(id: int, name: Seq<char>, text: Seq<char>) -> Result<PostView, BuildError> {
    match split_document(text) {
        None => Err(BuildError::MalformedFrontMatter),
        Some((m, body)) => match parse_metadata(m) {
            None => Err(BuildError::MalformedFrontMatter),
            Some(pairs) => assemble(id, slug_of(name), pairs, body),
        },
    }
}

/// A document that does not open with the marker makes no post: it is
/// rejected as malformed front matter, with nothing else returned.
pub proof fn lemma_no_marker_no_post(id: int, name: Seq<char>, text: Seq<char>)
    requires
        !marker_at(text, 0),
    ensures
        post_spec(id, name, text) == Err::<PostView, BuildError>(BuildError::MalformedFrontMatter),
{
}

/// A post is published exactly when the last `published` value of its
/// metadata is the text `true`; any other value, or none, leaves it a draft.
pub proof fn lemma_published_flag(id: int, name: Seq<char>, text: Seq<char>)
    requires
        post_spec(id, name, text) is Ok,
    ensures
        post_spec(id, name, text)->Ok_0.published == (lookup(
            parse_metadata((split_document(text)->0).0)->0,
            "published"@,
        ) == Some("true"@)),
{
}

/// The index of the last pair with the key `k`.
fn find_last(pairs: &Vec<(String, String)>, k: &str) -> (r: Option<usize>)
    ensures
        match r {
            Some(i) => i < pairs@.len() && lookup(pairs_view(pairs@), k@) == Some(
                pairs@[i as int].1@,
            ),
            None => lookup(pairs_view(pairs@), k@) is None,
        },
{
    let ghost pv = pairs_view(pairs@);
    let mut i = pairs.len();
    assert(pv.subrange(0, i as int) =~= pv);
    while i > 0
        invariant
            i <= pairs@.len(),
            pv == pairs_view(pairs@),
            lookup(pv, k@) == lookup(pv.subrange(0, i as int), k@),
        decreases i,
    {
        assert(pv.subrange(0, i as int).drop_last() =~= pv.subrange(0, i - 1));
        if same_text(pairs[i - 1].0.as_str(), k) {
            return Some(i - 1);
        }
        i = i - 1;
    }
    None
}

fn value_of(pairs: &Vec<(String, String)>, k: &str) -> (r: Option<String>)
    ensures
        opt_view(r) == lookup(pairs_view(pairs@), k@),
{
    match find_last(pairs, k) {
        Some(i) => Some(pairs[i].1.clone()),
        None => None,
    }
}

impl BlogPostFrontMatter {
    /// The recognised metadata of a list of pairs.
    pub fn from_pairs(pairs: &Vec<(String, String)>) -> (r: BlogPostFrontMatter)
        ensures
            r@ == front_matter_of(pairs_view(pairs@)),
    {
        let published = match find_last(pairs, "published") {
            Some(i) => same_text(pairs[i].1.as_str(), "true"),
            None => false,
        };
        let tags = match value_of(pairs, "tags") {
            Some(t) => t,
            None => String::new(),
        };
        BlogPostFrontMatter {
            cover_image: value_of(pairs, "cover_image"),
            date: value_of(pairs, "date"),
            description: value_of(pairs, "description"),
            edited: value_of(pairs, "edited"),
            published,
            tags,
            title: value_of(pairs, "title"),
        }
    }
}

/// The stem of a file name (see `slug_of`).
pub fn file_stem(name: &str) -> (r: String)
    ensures
        r@ == slug_of(name@),
{
    let t = chars_of(name);
    match find_last_char(&t, '.') {
        Some(p) => if p > 0 {
            string_of(t.as_slice(), 0, p)
        } else {
            string_of(t.as_slice(), 0, t.len())
        },
        None => string_of(t.as_slice(), 0, t.len()),
    }
}

impl BlogPost {
    /// The post made of checked metadata, given what its `date` text parsed
    /// to and what its `cover_image` text parsed to. A missing title, a date
    /// that did not parse and a cover image that did not parse are errors, in
    /// that order.
    pub fn finish(
        id: usize,
        url_name: String,
        fm: BlogPostFrontMatter,
        markdown: String,
        date: Option<i64>,
        cover_image: Option<String>,
    ) -> (r: Result<BlogPost, BuildError>)
        ensures
            match r {
                Ok(p) => finish_spec(
                    id as int,
                    url_name@,
                    fm@,
                    markdown@,
                    date,
                    opt_view(cover_image),
                ) == Ok::<PostView, BuildError>(p@),
                Err(e) => finish_spec(
                    id as int,
                    url_name@,
                    fm@,
                    markdown@,
                    date,
                    opt_view(cover_image),
                ) == Err::<PostView, BuildError>(e),
            },
    {
        let title = match fm.title {
            Some(t) => t,
            None => {
                return Err(BuildError::MissingRequiredField);
            },
        };
        if fm.date.is_some() && date.is_none() {
            return Err(BuildError::InvalidDateFormat);
        }
        if fm.cover_image.is_some() && cover_image.is_none() {
            return Err(BuildError::InvalidCoverImage);
        }
        let date = if fm.date.is_some() {
            date
        } else {
            None
        };
        let cover_image = if fm.cover_image.is_some() {
            cover_image
        } else {
            None
        };
        Ok(
            BlogPost {
                cover_image,
                date,
                description: fm.description,
                edited: fm.edited,
                id,
                published: fm.published,
                markdown,
                url_name,
                tags: fm.tags,
                title,
            },
        )
    }

    /// The post that the pairs of its metadata and its body make.
    pub fn assemble(
        id: usize,
        url_name: String,
        pairs: &Vec<(String, String)>,
        markdown: String,
    ) -> (r: Result<BlogPost, BuildError>)
        ensures
            match r {
                Ok(p) => assemble(id as int, url_name@, pairs_view(pairs@), markdown@) == Ok::<
                    PostView,
                    BuildError,
                >(p@),
                Err(e) => assemble(id as int, url_name@, pairs_view(pairs@), markdown@) == Err::<
                    PostView,
                    BuildError,
                >(e),
            },
    {
        let fm = BlogPostFrontMatter::from_pairs(pairs);
        let date = match &fm.date {
            Some(d) => parse_date(d.as_str()),
            None => None,
        };
        let cover_image = match &fm.cover_image {
            Some(c) => parse_url(c.as_str()),
            None => None,
        };
        BlogPost::finish(id, url_name, fm, markdown, date, cover_image)
    }

    /// The name of the template that renders the post.
    pub fn get_template(&self) -> (r: String)
        ensures
            r@ == "post_"@ + self.url_name@ + ".html"@,
    {
        let head = join_text("post_", self.url_name.as_str());
        join_text(head.as_str(), ".html")
    }

    /// The post with the id `id` that a source document makes: `name` is the
    /// source's file name, whose stem becomes the slug.
    pub fn new(id: usize, name: &str, text: &str) -> (r: Result<BlogPost, BuildError>)
        ensures
            match r {
                Ok(p) => post_spec(id as int, name@, text@) == Ok::<PostView, BuildError>(p@),
                Err(e) => post_spec(id as int, name@, text@) == Err::<PostView, BuildError>(e),
            },
    {
        let t = chars_of(text);
        let (m, body) = match split_chars(&t) {
            Ok(p) => p,
            Err(e) => {
                return Err(e);
            },
        };
        let mc = chars_of(m.as_str());
        let pairs = match parse_metadata_chars(&mc) {
            Ok(p) => p,
            Err(e) => {
                return Err(e);
            },
        };
        BlogPost::assemble(id, file_stem(name), &pairs, body)
    }
}

} // verus!
