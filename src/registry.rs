//! The registry: a summary of every post, drafts in id order and published
//! posts newest first, and the lookup from a post's path to its summary.
use vstd::prelude::*;
use crate::blog::{Blog, posts_view};
use crate::post::{BlogPost, PostView, opt_view};
use crate::text::join_text;

verus! {

broadcast use {vstd::seq_lib::group_to_multiset_ensures, vstd::multiset::group_multiset_axioms};

/// What a listing shows of a post.
#[derive(Debug, Clone)]
pub struct LinkInfo {
    pub id: usize,
    pub url_name: String,
    pub title: String,
}

pub ghost struct LinkView {
    pub id: int,
    pub url_name: Seq<char>,
    pub title: Seq<char>,
}

impl View for LinkInfo {
    type V = LinkView;

    open spec fn view(&self) -> LinkView {
        LinkView { id: self.id as int, url_name: self.url_name@, title: self.title@ }
    }
}

impl LinkInfo {
    /// A copy of the summary.
    pub fn copy(&self) -> (r: LinkInfo)
        ensures
            r@ == self@,
    {
        LinkInfo { id: self.id, url_name: self.url_name.clone(), title: self.title.clone() }
    }
}

pub open spec fn summary(p: PostView) -> LinkView {
    LinkView { id: p.id, url_name: p.url_name, title: p.title }
}

pub open spec fn summaries_of(ps: Seq<PostView>) -> Seq<LinkView> {
    ps.map_values(|p: PostView| summary(p))
}

pub open spec fn links_view(v: Seq<LinkInfo>) -> Seq<LinkView> {
    v.map_values(|l: LinkInfo| l@)
}

/// The summaries of the drafts and of the published posts.
#[derive(Debug)]
pub struct BlogLinkInfo {
    pub drafts: Vec<LinkInfo>,
    pub published: Vec<LinkInfo>,
}

/// `a` is strictly newer than `b`; a post without a date is older than
/// every dated one.
pub open spec fn date_after(a: Option<i64>, b: Option<i64>) -> bool {
    match (a, b) {
        (Some(x), Some(y)) => x > y,
        (Some(_), None) => true,
        _ => false,
    }
}

/// `a` is listed before `b`: it is newer, or as new and added later.
pub open spec fn listed_before(a: PostView, b: PostView) -> bool {
    date_after(a.date, b.date) || (a.date == b.date && a.id > b.id)
}

/// No post is listed after one that should follow it.
pub open spec fn listing_sorted(s: Seq<PostView>) -> bool {
    forall|i: int, j: int| 0 <= i < j < s.len() ==> !listed_before(#[trigger] s[j], #[trigger] s[i])
}

/// No two posts share an id.
pub open spec fn ids_distinct(s: Seq<PostView>) -> bool {
    forall|i: int, j: int| 0 <= i < j < s.len() ==> (#[trigger] s[i]).id != (#[trigger] s[j]).id
}

/// A listing of the published posts `ps`: all of them, newest first.
pub open spec fn is_listing(l: Seq<PostView>, ps: Seq<PostView>) -> bool {
    l.to_multiset() == ps.to_multiset() && listing_sorted(l)
}

proof fn lemma_listed_before_order(a: PostView, b: PostView, c: PostView)
    ensures
        !(listed_before(a, b) && listed_before(b, a)),
        listed_before(a, b) && listed_before(b, c) ==> listed_before(a, c),
        a.id != b.id ==> listed_before(a, b) || listed_before(b, a),
{
}

fn date_after_exec(a: Option<i64>, b: Option<i64>) -> (r: bool)
    ensures
        r == date_after(a, b),
{
    match (a, b) {
        (Some(x), Some(y)) => x > y,
        (Some(_), None) => true,
        _ => false,
    }
}

fn listed_before_exec(a: &BlogPost, b: &BlogPost) -> (r: bool)
    ensures
        r == listed_before(a@, b@),
{
    date_after_exec(a.date, b.date) || (a.date == b.date && a.id > b.id)
}

fn copy_text(s: &Option<String>) -> (r: Option<String>)
    ensures
        opt_view(r) == opt_view(*s),
{
    match s {
        Some(t) => Some(t.clone()),
        None => None,
    }
}

impl BlogPost {
    /// A copy of the post.
    pub fn duplicate(&self) -> (r: BlogPost)
        ensures
            r@ == self@,
    {
        BlogPost {
            cover_image: copy_text(&self.cover_image),
            date: self.date,
            description: copy_text(&self.description),
            edited: copy_text(&self.edited),
            id: self.id,
            published: self.published,
            markdown: self.markdown.clone(),
            url_name: self.url_name.clone(),
            tags: self.tags.clone(),
            title: self.title.clone(),
        }
    }

    /// What a listing shows of the post.
    pub fn link_info(&self) -> (r: LinkInfo)
        ensures
            r@ == summary(self@),
    {
        LinkInfo { id: self.id, url_name: self.url_name.clone(), title: self.title.clone() }
    }
}

/// The posts newest first; of two posts as new, the later one first.
pub fn list_newest_first(posts: &Vec<BlogPost>) -> (r: Vec<BlogPost>)
    requires
        ids_distinct(posts_view(posts@)),
    ensures
        is_listing(posts_view(r@), posts_view(posts@)),
{
    let mut out: Vec<BlogPost> = Vec::new();
    let mut k: usize = 0;
    while k < posts.len()
        invariant
            k <= posts@.len(),
            ids_distinct(posts_view(posts@)),
            posts_view(out@).to_multiset() == posts_view(posts@.take(k as int)).to_multiset(),
            listing_sorted(posts_view(out@)),
            forall|i: int| 0 <= i < out@.len() ==> exists|m: int| 0 <= m < k && #[trigger] out@[i]@ == posts@[m]@,
        decreases posts@.len() - k,
    {
        let x = posts[k].duplicate();
        let mut p: usize = 0;
        while p < out.len() && !listed_before_exec(&x, &out[p])
            invariant
                p <= out@.len(),
                forall|q: int| 0 <= q < p ==> !listed_before(x@, #[trigger] out@[q]@),
            decreases out@.len() - p,
        {
            p = p + 1;
        }
        let ghost old_out = out@;
        let ghost xv = x@;
        proof {
            assert forall|q: int| 0 <= q < old_out.len() implies (#[trigger] old_out[q]@).id != xv.id by {
                let m = choose|m: int| 0 <= m < k && old_out[q]@ == posts@[m]@;
                assert(posts_view(posts@)[m] == posts@[m]@);
                assert(posts_view(posts@)[k as int] == posts@[k as int]@);
            }
        }
        out.insert(p, x);
        proof {
            assert(posts_view(out@) =~= posts_view(old_out).insert(p as int, xv));
            assert(posts_view(posts@.take(k + 1)) =~= posts_view(posts@.take(k as int)).push(xv));
            assert forall|i: int, j: int| 0 <= i < j < out@.len() implies !listed_before(
                #[trigger] posts_view(out@)[j],
                #[trigger] posts_view(out@)[i],
            ) by {
                if i < p && j == p {
                    lemma_listed_before_order(old_out[i]@, xv, xv);
                } else if i == p && j > p {
                    let y = old_out[j - 1]@;
                    let z = old_out[p as int]@;
                    lemma_listed_before_order(xv, y, y);
                    lemma_listed_before_order(xv, z, y);
                    lemma_listed_before_order(z, y, y);
                    assert(posts_view(old_out)[p as int] == z);
                    assert(posts_view(old_out)[j - 1] == y);
                } else if i < p && j > p {
                    assert(posts_view(old_out)[i] == posts_view(out@)[i]);
                    assert(posts_view(old_out)[j - 1] == posts_view(out@)[j]);
                } else if i > p {
                    assert(posts_view(old_out)[i - 1] == posts_view(out@)[i]);
                    assert(posts_view(old_out)[j - 1] == posts_view(out@)[j]);
                } else {
                    assert(posts_view(old_out)[i] == posts_view(out@)[i]);
                    assert(posts_view(old_out)[j] == posts_view(out@)[j]);
                }
            }
            assert forall|i: int| 0 <= i < out@.len() implies exists|m: int|
                0 <= m < k + 1 && #[trigger] out@[i]@ == posts@[m]@ by {
                if i < p {
                    assert(out@[i] == old_out[i]);
                } else if i == p {
                } else {
                    assert(out@[i] == old_out[i - 1]);
                }
            }
        }
        k = k + 1;
    }
    assert(posts@.take(k as int) =~= posts@);
    out
}

/// Two listings of the same posts, with distinct ids, are the same sequence:
/// the listing depends on the posts alone, so listing twice gives one order.
pub proof fn lemma_listing_unique(a: Seq<PostView>, b: Seq<PostView>, ps: Seq<PostView>)
    requires
        is_listing(a, ps),
        is_listing(b, ps),
        ids_distinct(ps),
    ensures
        a == b,
{
    assert forall|i: int, j: int| 0 <= i < j < a.len() implies (#[trigger] a[i]).id != (
    #[trigger] a[j]).id by {
        assert(a.contains(a[i]) && a.contains(a[j]));
        assert(a.to_multiset().count(a[i]) > 0 && a.to_multiset().count(a[j]) > 0);
        assert(ps.contains(a[i]) && ps.contains(a[j]));
        let x = choose|x: int| 0 <= x < ps.len() && ps[x] == a[i];
        let y = choose|y: int| 0 <= y < ps.len() && ps[y] == a[j];
        if a[i] == a[j] {
            assert(ps.no_duplicates()) by {
                assert forall|u: int, v: int| 0 <= u < ps.len() && 0 <= v < ps.len() && u != v implies ps[u] != ps[v] by {
                    if u < v {
                        assert(ps[u].id != ps[v].id);
                    } else {
                        assert(ps[v].id != ps[u].id);
                    }
                }
            }
            ps.lemma_multiset_has_no_duplicates();
            assert(a.to_multiset().count(a[i]) == 1);
            let s0 = a.subrange(0, j);
            let s1 = a.subrange(j, a.len() as int);
            assert(a =~= s0 + s1);
            vstd::seq_lib::lemma_multiset_commutative(s0, s1);
            assert(s0[i] == a[i] && s0.contains(a[i]));
            assert(s1[0] == a[j] && s1.contains(a[j]));
            assert(s0.to_multiset().count(a[i]) > 0);
            assert(s1.to_multiset().count(a[i]) > 0);
        } else if x < y {
            assert(ps[x].id != ps[y].id);
        } else if y < x {
            assert(ps[y].id != ps[x].id);
        }
    }
    lemma_sorted_unique(a, b);
}

proof fn lemma_sorted_unique(a: Seq<PostView>, b: Seq<PostView>)
    requires
        a.to_multiset() == b.to_multiset(),
        listing_sorted(a),
        listing_sorted(b),
        ids_distinct(a),
    ensures
        a == b,
    decreases a.len(),
{
    assert(a.to_multiset().len() == a.len());
    assert(b.to_multiset().len() == b.len());
    if a.len() == 0 {
        assert(a =~= b);
    } else {
        assert(a.contains(a[0]));
        assert(a.to_multiset().count(a[0]) > 0);
        assert(b.contains(a[0]));
        assert(b.contains(b[0]));
        assert(b.to_multiset().count(b[0]) > 0);
        assert(a.contains(b[0]));
        let j = choose|j: int| 0 <= j < b.len() && b[j] == a[0];
        let i = choose|i: int| 0 <= i < a.len() && a[i] == b[0];
        if a[0] != b[0] {
            assert(i != 0 && j != 0);
            assert(!listed_before(b[j], b[0]));
            assert(!listed_before(a[i], a[0]));
            lemma_listed_before_order(a[0], a[i], a[i]);
        }
        let a1 = a.drop_first();
        let b1 = b.drop_first();
        assert(a.remove(0) =~= a1);
        assert(b.remove(0) =~= b1);
        assert(a1.to_multiset() == b1.to_multiset());
        assert(listing_sorted(a1)) by {
            assert forall|u: int, v: int| 0 <= u < v < a1.len() implies !listed_before(
                #[trigger] a1[v],
                #[trigger] a1[u],
            ) by {
                assert(a1[v] == a[v + 1] && a1[u] == a[u + 1]);
            }
        }
        assert(listing_sorted(b1)) by {
            assert forall|u: int, v: int| 0 <= u < v < b1.len() implies !listed_before(
                #[trigger] b1[v],
                #[trigger] b1[u],
            ) by {
                assert(b1[v] == b[v + 1] && b1[u] == b[u + 1]);
            }
        }
        assert(ids_distinct(a1)) by {
            assert forall|u: int, v: int| 0 <= u < v < a1.len() implies (#[trigger] a1[u]).id != (
            #[trigger] a1[v]).id by {
                assert(a1[v] == a[v + 1] && a1[u] == a[u + 1]);
            }
        }
        lemma_sorted_unique(a1, b1);
        assert(a =~= seq![a[0]] + a1);
        assert(b =~= seq![b[0]] + b1);
    }
}

/// The path of every post: `/` and its slug, published posts first.
pub open spec fn paths_of(links: BlogLinkInfo) -> Seq<Seq<char>> {
    link_paths(links_view(links.published@) + links_view(links.drafts@))
}

impl BlogLinkInfo {
    /// The registry of a blog: the drafts in id order, the published posts
    /// newest first.
    pub fn new(blog: &Blog) -> (r: BlogLinkInfo)
        requires
            blog.wf(),
        ensures
            links_view(r.drafts@) == summaries_of(posts_view(blog.drafts@)),
            exists|l: Seq<PostView>|
                is_listing(l, posts_view(blog.published@)) && #[trigger] links_view(r.published@)
                    == summaries_of(l),
    {
        proof {
            let all = posts_view(blog.drafts@ + blog.published@);
            let n = blog.drafts@.len();
            assert forall|u: int, v: int| 0 <= u < v < blog.published@.len() implies (
            #[trigger] posts_view(blog.published@)[u]).id != (
            #[trigger] posts_view(blog.published@)[v]).id by {
                assert(all[n + u] == posts_view(blog.published@)[u]);
                assert(all[n + v] == posts_view(blog.published@)[v]);
            }
        }
        let listed = list_newest_first(&blog.published);
        let drafts = summaries(&blog.drafts);
        let published = summaries(&listed);
        BlogLinkInfo { drafts, published }
    }
}

impl BlogLinkInfo {
    /// The paths that a router answers with a post, one per post.
    pub fn paths(&self) -> (r: Vec<String>)
        ensures
            strings_view(r@) == paths_of(*self),
    {
        let mut r: Vec<String> = Vec::new();
        push_paths(&mut r, &self.published);
        push_paths(&mut r, &self.drafts);
        proof {
            let lp = links_view(self.published@);
            let ld = links_view(self.drafts@);
            assert(Seq::<Seq<char>>::empty() + link_paths(lp) + link_paths(ld) =~= link_paths(lp + ld));
        }
        r
    }
}

pub open spec fn strings_view(v: Seq<String>) -> Seq<Seq<char>> {
    v.map_values(|s: String| s@)
}

pub open spec fn link_paths(ls: Seq<LinkView>) -> Seq<Seq<char>> {
    ls.map_values(|l: LinkView| "/"@ + l.url_name)
}

fn push_paths(r: &mut Vec<String>, links: &Vec<LinkInfo>)
    ensures
        strings_view(final(r)@) == strings_view(old(r)@) + link_paths(links_view(links@)),
{
    let ghost start = strings_view(r@);
    let ghost lv = links_view(links@);
    let mut i: usize = 0;
    while i < links.len()
        invariant
            lv == links_view(links@),
            i <= links@.len(),
            strings_view(r@) == start + link_paths(lv.take(i as int)),
        decreases links@.len() - i,
    {
        let ghost prev = r@;
        r.push(join_text("/", links[i].url_name.as_str()));
        assert(lv[i as int] == links@[i as int]@);
        assert(strings_view(r@) =~= strings_view(prev).push("/"@ + links@[i as int].url_name@));
        assert(link_paths(lv.take(i + 1)) =~= link_paths(lv.take(i as int)).push(
            "/"@ + links@[i as int].url_name@,
        ));
        assert(start + link_paths(lv.take(i + 1)) =~= (start + link_paths(lv.take(i as int))).push(
            "/"@ + links@[i as int].url_name@,
        ));
        i = i + 1;
    }
    assert(lv.take(i as int) =~= lv);
}

fn summaries(posts: &Vec<BlogPost>) -> (r: Vec<LinkInfo>)
    ensures
        links_view(r@) == summaries_of(posts_view(posts@)),
{
    let mut r: Vec<LinkInfo> = Vec::new();
    let mut i: usize = 0;
    while i < posts.len()
        invariant
            i <= posts@.len(),
            links_view(r@) == summaries_of(posts_view(posts@.take(i as int))),
        decreases posts@.len() - i,
    {
        let ghost prev = r@;
        let li = posts[i].link_info();
        r.push(li);
        proof {
            let before = posts_view(posts@.take(i as int));
            assert(posts_view(posts@.take(i + 1)) =~= before.push(posts@[i as int]@));
            assert(links_view(r@) =~= links_view(prev).push(li@));
            assert(summaries_of(before.push(posts@[i as int]@)) =~= summaries_of(before).push(
                summary(posts@[i as int]@),
            ));
        }
        i = i + 1;
    }
    assert(posts@.take(i as int) =~= posts@);
    r
}

} // verus!
