//! The scanner: every source of the content directory becomes a post, with
//! ids given in the order of the sources' names.
use vstd::prelude::*;
use crate::front_matter::{BuildError, marker_at};
use crate::order::{
    lemma_name_lt_asymmetric, lemma_name_lt_total, lemma_name_lt_transitive, name_lt,
    name_lt_exec,
};
use crate::post::{BlogPost, PostView, file_stem, lemma_no_marker_no_post, post_spec, slug_of};
use crate::registry::ids_distinct;
use crate::text::{chars_of, same_text};

verus! {

broadcast use {vstd::seq_lib::group_to_multiset_ensures, vstd::multiset::group_multiset_axioms};

/// One entry of the content directory: its file name and its text, or
/// `None` when the entry could not be read as UTF-8 text.
#[derive(Debug, Clone)]
pub struct SourceFile {
    pub name: String,
    pub text: Option<String>,
}

/// The post that a source gives with the id `id`.
pub open spec fn source_spec(id: int, f: SourceFile) -> Result<PostView, BuildError> {
    match f.text {
        Some(t) => post_spec(id, f.name@, t@),
        None => Err(BuildError::UnreadableSource),
    }
}

/// The posts of the blog, split by their publication flag.
#[derive(Debug)]
pub struct Blog {
    pub drafts: Vec<BlogPost>,
    pub published: Vec<BlogPost>,
}

pub ghost struct BlogView {
    pub drafts: Seq<PostView>,
    pub published: Seq<PostView>,
}

pub open spec fn posts_view(v: Seq<BlogPost>) -> Seq<PostView> {
    v.map_values(|p: BlogPost| p@)
}

impl View for Blog {
    type V = BlogView;

    open spec fn view(&self) -> BlogView {
        BlogView { drafts: posts_view(self.drafts@), published: posts_view(self.published@) }
    }
}

/// The source makes a post.
pub open spec fn source_ok(f: SourceFile) -> bool {
    source_spec(0, f) is Ok
}

pub open spec fn all_ok(s: Seq<SourceFile>) -> bool {
    forall|i: int| 0 <= i < s.len() ==> source_ok(#[trigger] s[i])
}

/// No two sources derive the same slug.
pub open spec fn slugs_distinct(s: Seq<SourceFile>) -> bool {
    forall|i: int, j: int|
        0 <= i < j < s.len() ==> slug_of(#[trigger] s[i].name@) != slug_of(#[trigger] s[j].name@)
}

/// The sources stand in the order of their names.
pub open spec fn sorted_by_name(s: Seq<SourceFile>) -> bool {
    forall|i: int, j: int| 0 <= i < j < s.len() ==> !name_lt(#[trigger] s[j].name@, #[trigger] s[i].name@)
}

/// The posts of sources in the given order: the `k`-th gets the id `k`.
pub open spec fn posts_of(order: Seq<SourceFile>) -> Seq<PostView> {
    Seq::new(order.len(), |k: int| source_spec(k, order[k])->Ok_0)
}

pub open spec fn is_draft(p: PostView) -> bool {
    !p.published
}

pub open spec fn is_published(p: PostView) -> bool {
    p.published
}

pub open spec fn drafts_of(ps: Seq<PostView>) -> Seq<PostView> {
    ps.filter(|p: PostView| is_draft(p))
}

pub open spec fn published_of(ps: Seq<PostView>) -> Seq<PostView> {
    ps.filter(|p: PostView| is_published(p))
}

/// The blog holds the posts of the sources in this order, drafts and
/// published posts each in id order.
pub open spec fn scan_matches(b: BlogView, order: Seq<SourceFile>) -> bool {
    &&& b.drafts == drafts_of(posts_of(order))
    &&& b.published == published_of(posts_of(order))
}

/// Some source fails with the error `e`.
pub open spec fn has_error(s: Seq<SourceFile>, e: BuildError) -> bool {
    exists|i: int| 0 <= i < s.len() && source_spec(0, s[i]) == Err::<PostView, BuildError>(e)
}

/// The first source that fails, fails with the error `e`.
pub open spec fn first_error(s: Seq<SourceFile>, e: BuildError) -> bool {
    exists|i: int|
        0 <= i < s.len() && source_spec(0, #[trigger] s[i]) == Err::<PostView, BuildError>(e)
            && forall|j: int| 0 <= j < i ==> source_ok(#[trigger] s[j])
}

/// Two orders of the same sources agree on whether all make posts and on
/// the errors that they give.
pub proof fn lemma_sources_permuted(a: Seq<SourceFile>, b: Seq<SourceFile>)
    requires
        a.to_multiset() == b.to_multiset(),
    ensures
        all_ok(a) == all_ok(b),
        forall|e: BuildError| has_error(a, e) ==> has_error(b, e),
{
    assert forall|i: int| 0 <= i < a.len() implies b.contains(#[trigger] a[i]) by {
        assert(a.contains(a[i]));
        assert(a.to_multiset().count(a[i]) > 0);
        assert(b.to_multiset().count(a[i]) > 0);
    }
    assert forall|i: int| 0 <= i < b.len() implies a.contains(#[trigger] b[i]) by {
        assert(b.contains(b[i]));
        assert(b.to_multiset().count(b[i]) > 0);
        assert(a.to_multiset().count(b[i]) > 0);
    }
    if all_ok(a) {
        assert forall|i: int| 0 <= i < b.len() implies source_ok(#[trigger] b[i]) by {
            assert(a.contains(b[i]));
        }
    }
    if all_ok(b) {
        assert forall|i: int| 0 <= i < a.len() implies source_ok(#[trigger] a[i]) by {
            assert(b.contains(a[i]));
        }
    }
    assert forall|e: BuildError| has_error(a, e) implies has_error(b, e) by {
        let i = choose|i: int| 0 <= i < a.len() && source_spec(0, a[i]) == Err::<PostView, BuildError>(e);
        assert(b.contains(a[i]));
        let j = choose|j: int| 0 <= j < b.len() && b[j] == a[i];
    }
}

/// Whether a source makes a post does not depend on the id it gets.
pub proof fn lemma_source_spec_id(i: int, f: SourceFile)
    ensures
        (source_spec(i, f) is Ok) == (source_spec(0, f) is Ok),
        source_spec(i, f) is Ok ==> source_spec(i, f)->Ok_0.id == i,
        source_spec(i, f) is Err ==> source_spec(i, f) == source_spec(0, f),
{
}

/// A source whose text does not open with the marker fails the whole scan.
pub proof fn lemma_unmarked_source_fails_scan(sources: Seq<SourceFile>, i: int)
    requires
        0 <= i < sources.len(),
        sources[i].text is Some,
        !marker_at(sources[i].text->0@, 0),
    ensures
        !all_ok(sources),
{
    lemma_no_marker_no_post(0, sources[i].name@, sources[i].text->0@);
    assert(!source_ok(sources[i]));
}

/// Splitting posts into drafts and published posts loses none and adds none.
pub proof fn lemma_split_keeps_posts(ps: Seq<PostView>)
    ensures
        drafts_of(ps).to_multiset().add(published_of(ps).to_multiset()) == ps.to_multiset(),
    decreases ps.len(),
{
    reveal(Seq::filter);
    if ps.len() == 0 {
        assert(drafts_of(ps) =~= Seq::<PostView>::empty());
        assert(published_of(ps) =~= Seq::<PostView>::empty());
        assert(drafts_of(ps).to_multiset().add(published_of(ps).to_multiset()) =~= ps.to_multiset());
    } else {
        let s = ps.drop_last();
        lemma_split_keeps_posts(s);
        assert(ps =~= s.push(ps.last()));
        assert(drafts_of(ps).to_multiset().add(published_of(ps).to_multiset()) =~= ps.to_multiset());
    }
}

/// After a scan the drafts and the published posts together are the posts of
/// all sources, each once; no post is in both, since the drafts are exactly
/// the posts not marked published.
pub proof fn lemma_scan_partitions(b: BlogView, order: Seq<SourceFile>)
    requires
        scan_matches(b, order),
    ensures
        (b.drafts + b.published).to_multiset() == posts_of(order).to_multiset(),
        forall|i: int| 0 <= i < b.drafts.len() ==> !(#[trigger] b.drafts[i]).published,
        forall|j: int| 0 <= j < b.published.len() ==> (#[trigger] b.published[j]).published,
        forall|i: int, j: int|
            0 <= i < b.drafts.len() && 0 <= j < b.published.len() ==> #[trigger] b.drafts[i]
                != #[trigger] b.published[j],
{
    broadcast use vstd::seq_lib::group_filter_ensures;

    lemma_split_keeps_posts(posts_of(order));
    vstd::seq_lib::lemma_multiset_commutative(b.drafts, b.published);
    assert forall|i: int| 0 <= i < b.drafts.len() implies !(#[trigger] b.drafts[i]).published by {
        assert(is_draft(drafts_of(posts_of(order))[i]));
    }
    assert forall|j: int| 0 <= j < b.published.len() implies (#[trigger] b.published[j]).published by {
        assert(is_published(published_of(posts_of(order))[j]));
    }
}

/// Some post has the id `k`.
pub open spec fn id_used(ps: Seq<PostView>, k: int) -> bool {
    exists|i: int| 0 <= i < ps.len() && #[trigger] ps[i].id == k
}

/// A scan of `n` sources gives `n` posts whose ids are `0` to `n - 1`, each
/// used by exactly one post.
pub proof fn lemma_scan_ids(b: BlogView, order: Seq<SourceFile>)
    requires
        scan_matches(b, order),
        all_ok(order),
    ensures
        b.drafts.len() + b.published.len() == order.len(),
        forall|i: int|
            0 <= i < (b.drafts + b.published).len() ==> 0 <= #[trigger] (b.drafts
                + b.published)[i].id < order.len(),
        forall|i: int, j: int|
            0 <= i < j < (b.drafts + b.published).len() ==> #[trigger] (b.drafts
                + b.published)[i].id != #[trigger] (b.drafts + b.published)[j].id,
        forall|k: int| 0 <= k < order.len() ==> #[trigger] id_used(b.drafts + b.published, k),
{
    let all = b.drafts + b.published;
    let ps = posts_of(order);
    lemma_scan_partitions(b, order);
    assert forall|m: int| 0 <= m < ps.len() implies #[trigger] ps[m].id == m by {
        lemma_source_spec_id(m, order[m]);
        lemma_source_spec_id(0, order[m]);
        assert(source_ok(order[m]));
    }
    assert forall|i: int| 0 <= i < all.len() implies #[trigger] ps.contains(all[i]) by {
        assert(all.contains(all[i]));
        assert(ps.to_multiset().count(all[i]) > 0);
    }
    assert(ps.no_duplicates());
    ps.lemma_multiset_has_no_duplicates();
    all.lemma_multiset_has_no_duplicates_conv();
    assert forall|i: int, j: int|
        0 <= i < j < all.len() implies #[trigger] all[i].id != #[trigger] all[j].id by {
        assert(ps.contains(all[i]) && ps.contains(all[j]));
        let mi = choose|m: int| 0 <= m < ps.len() && ps[m] == all[i];
        let mj = choose|m: int| 0 <= m < ps.len() && ps[m] == all[j];
    }
    assert forall|i: int| 0 <= i < all.len() implies 0 <= #[trigger] all[i].id < order.len() by {
        assert(ps.contains(all[i]));
        let mi = choose|m: int| 0 <= m < ps.len() && ps[m] == all[i];
    }
    assert forall|k: int| 0 <= k < order.len() implies #[trigger] id_used(all, k) by {
        assert(ps.contains(ps[k]));
        assert(all.to_multiset().count(ps[k]) > 0);
        assert(all.contains(ps[k]));
        let i = choose|i: int| 0 <= i < all.len() && all[i] == ps[k];
        assert(all[i].id == k);
    }
    assert(all.to_multiset().len() == all.len());
    assert(ps.to_multiset().len() == ps.len());
}

/// Sorts the sources by name.
pub fn sort_sources(sources: Vec<SourceFile>) -> (r: Vec<SourceFile>)
    ensures
        r@.to_multiset() == sources@.to_multiset(),
        sorted_by_name(r@),
{
    let mut rest = sources;
    let mut out: Vec<SourceFile> = Vec::new();
    while rest.len() > 0
        invariant
            out@.to_multiset().add(rest@.to_multiset()) == sources@.to_multiset(),
            sorted_by_name(out@),
        decreases rest@.len(),
    {
        let ghost before = rest@;
        let f = rest.pop().unwrap();
        proof {
            assert(before =~= rest@.push(f));
        }
        let key = chars_of(f.name.as_str());
        let mut p: usize = 0;
        while p < out.len() && !name_lt_exec(&key, &chars_of(out[p].name.as_str()))
            invariant
                p <= out@.len(),
                key@ == f.name@,
                forall|q: int| 0 <= q < p ==> !name_lt(f.name@, #[trigger] out@[q].name@),
            decreases out@.len() - p,
        {
            p = p + 1;
        }
        let ghost old_out = out@;
        out.insert(p, f);
        proof {
            assert forall|i: int, j: int| 0 <= i < j < out@.len() implies !name_lt(
                #[trigger] out@[j].name@,
                #[trigger] out@[i].name@,
            ) by {
                if i < p && j == p {
                    // the search for `p` passed over names that `f` does not precede
                } else if i == p && j > p {
                    let y = old_out[j - 1].name@;
                    let z = old_out[p as int].name@;
                    lemma_name_lt_asymmetric(f.name@, y);
                    if j - 1 > p {
                        lemma_name_lt_total(z, y);
                        if name_lt(z, y) {
                            lemma_name_lt_transitive(f.name@, z, y);
                        }
                    }
                } else if i < p && j > p {
                    assert(old_out[i] == out@[i] && old_out[j - 1] == out@[j]);
                } else if i > p {
                    assert(old_out[i - 1] == out@[i] && old_out[j - 1] == out@[j]);
                } else {
                    assert(old_out[i] == out@[i] && old_out[j] == out@[j]);
                }
            }
        }
    }
    out
}

/// Whether no two sources derive the same slug.
fn slugs_are_distinct(sources: &Vec<SourceFile>) -> (r: bool)
    ensures
        r == slugs_distinct(sources@),
{
    let mut slugs: Vec<String> = Vec::new();
    let mut i: usize = 0;
    while i < sources.len()
        invariant
            i <= sources@.len(),
            slugs@.len() == i,
            forall|k: int| 0 <= k < i ==> #[trigger] slugs@[k]@ == slug_of(sources@[k].name@),
            forall|a: int, b: int|
                0 <= a < b < i ==> slug_of(#[trigger] sources@[a].name@) != slug_of(
                    #[trigger] sources@[b].name@,
                ),
        decreases sources@.len() - i,
    {
        let s = file_stem(sources[i].name.as_str());
        let mut j: usize = 0;
        while j < i
            invariant
                j <= i < sources@.len(),
                slugs@.len() == i,
                s@ == slug_of(sources@[i as int].name@),
                forall|k: int| 0 <= k < i ==> #[trigger] slugs@[k]@ == slug_of(sources@[k].name@),
                forall|a: int| 0 <= a < j ==> slug_of(#[trigger] sources@[a].name@) != s@,
            decreases i - j,
        {
            if same_text(slugs[j].as_str(), s.as_str()) {
                return false;
            }
            j = j + 1;
        }
        slugs.push(s);
        i = i + 1;
    }
    true
}

impl BlogPost {
    /// The post with the id `id` that a source gives.
    pub fn from_source(id: usize, f: &SourceFile) -> (r: Result<BlogPost, BuildError>)
        ensures
            match r {
                Ok(p) => source_spec(id as int, *f) == Ok::<PostView, BuildError>(p@),
                Err(e) => source_spec(id as int, *f) == Err::<PostView, BuildError>(e),
            },
    {
        match &f.text {
            Some(t) => BlogPost::new(id, f.name.as_str(), t.as_str()),
            None => Err(BuildError::UnreadableSource),
        }
    }
}

impl Blog {
    /// Drafts are not published, published posts are, and no two posts share
    /// an id.
    pub open spec fn wf(&self) -> bool {
        &&& forall|i: int| 0 <= i < self.drafts@.len() ==> !(#[trigger] self.drafts@[i]).published
        &&& forall|j: int| 0 <= j < self.published@.len() ==> (#[trigger] self.published@[j]).published
        &&& ids_distinct(posts_view(self.drafts@ + self.published@))
    }

    /// The blog of sources already in order: the `k`-th source becomes the
    /// post with id `k`. Fails with the error of the first source that does
    /// not make a post.
    pub fn from_sorted(order: &Vec<SourceFile>) -> (r: Result<Blog, BuildError>)
        ensures
            (r is Ok) == all_ok(order@),
            r matches Ok(b) ==> scan_matches(b@, order@),
            r matches Err(e) ==> first_error(order@, e),
    {
        let ghost ps = posts_of(order@);
        let mut drafts: Vec<BlogPost> = Vec::new();
        let mut published: Vec<BlogPost> = Vec::new();
        let mut k: usize = 0;
        while k < order.len()
            invariant
                k <= order@.len(),
                ps == posts_of(order@),
                posts_view(drafts@) == drafts_of(ps.take(k as int)),
                posts_view(published@) == published_of(ps.take(k as int)),
                forall|i: int| 0 <= i < k ==> source_ok(#[trigger] order@[i]),
            decreases order@.len() - k,
        {
            let f = &order[k];
            proof {
                lemma_source_spec_id(k as int, *f);
            }
            let post = match BlogPost::from_source(k, f) {
                Ok(p) => p,
                Err(e) => {
                    assert(source_spec(0, order@[k as int]) == Err::<PostView, BuildError>(e));
                    assert(first_error(order@, e)) by {
                        assert(forall|j: int| 0 <= j < k ==> source_ok(#[trigger] order@[j]));
                    }
                    return Err(e);
                },
            };
            let ghost pv = post@;
            proof {
                reveal(Seq::filter);
                assert(ps[k as int] == pv);
                assert(ps.take(k + 1).drop_last() =~= ps.take(k as int));
                assert(ps.take(k + 1).last() == pv);
            }
            if post.published {
                published.push(post);
                assert(posts_view(published@) =~= posts_view(published@.drop_last()).push(pv));
            } else {
                drafts.push(post);
                assert(posts_view(drafts@) =~= posts_view(drafts@.drop_last()).push(pv));
            }
            k = k + 1;
        }
        assert(ps.take(k as int) =~= ps);
        Ok(Blog { drafts, published })
    }

    /// Scans the sources of the content directory, given in any order. The
    /// sources are sorted by name and the `k`-th becomes the post with id `k`.
    /// Two sources with the same slug reject the whole build, and so does any
    /// source that does not make a post.
    pub fn new(sources: Vec<SourceFile>) -> (r: Result<Blog, BuildError>)
        ensures
            (r is Ok) == (slugs_distinct(sources@) && all_ok(sources@)),
            r matches Err(e) ==> if slugs_distinct(sources@) {
                has_error(sources@, e)
            } else {
                e == BuildError::DuplicateSlug
            },
            r matches Ok(b) ==> b.wf(),
            r matches Ok(b) ==> exists|order: Seq<SourceFile>|
                order.to_multiset() == sources@.to_multiset() && sorted_by_name(order)
                    && #[trigger] scan_matches(b@, order),
    {
        if !slugs_are_distinct(&sources) {
            return Err(BuildError::DuplicateSlug);
        }
        let ghost input = sources@;
        let order = sort_sources(sources);
        proof {
            lemma_sources_permuted(order@, input);
        }
        let r = Blog::from_sorted(&order);
        proof {
            if r is Err {
                let e = r->Err_0;
                let i = choose|i: int|
                    0 <= i < order@.len() && source_spec(0, #[trigger] order@[i]) == Err::<PostView, BuildError>(e)
                        && forall|j: int| 0 <= j < i ==> source_ok(#[trigger] order@[j]);
                assert(has_error(order@, e));
            }
            if r is Ok {
                let b = r->Ok_0;
                assert(scan_matches(b@, order@));
                lemma_scan_ids(b@, order@);
                lemma_scan_partitions(b@, order@);
                assert(posts_view(b.drafts@ + b.published@) =~= b@.drafts + b@.published);
                assert forall|i: int| 0 <= i < b.drafts@.len() implies !(#[trigger] b.drafts@[i]).published by {
                    assert(b@.drafts[i] == b.drafts@[i]@);
                }
                assert forall|j: int| 0 <= j < b.published@.len() implies (#[trigger] b.published@[j]).published by {
                    assert(b@.published[j] == b.published@[j]@);
                }
            }
        }
        r
    }

    /// The number of posts.
    pub fn total(&self) -> (r: usize)
        requires
            self.drafts@.len() + self.published@.len() <= usize::MAX,
        ensures
            r == self.drafts@.len() + self.published@.len(),
    {
        self.drafts.len() + self.published.len()
    }
}

} // verus!
