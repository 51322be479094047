use vstd::prelude::*;
use vstd::multiset::Multiset;

use crate::bytes::bytes_eq;
use crate::date::{date_le, date_le_exec, lemma_date_le_total, lemma_date_le_trans, Date};
use crate::post::{post_views, Post, PostView};

verus! {

// The post index owns the sorted post collection.  Building it checks what
// the rest of the pipeline relies on: every post carries front matter with a
// date, slugs are unique, and the collection is sorted by date descending.

#[derive(Clone, Copy, PartialEq, Eq, Structural, Debug)]
pub enum IndexError {
    /// A post without front matter.
    MissingMeta,
    /// Front matter without a date.
    MissingDate,
    /// Two posts that share a slug.
    DuplicateSlug,
}

/// The post carries front matter with a date.
pub open spec fn post_dated(p: PostView) -> bool {
    p.meta is Some && p.meta->0.date is Some
}

pub open spec fn post_date(p: PostView) -> Date
    recommends
        post_dated(p),
{
    p.meta->0.date->0
}

pub open spec fn post_slug(p: PostView) -> Seq<u8>
    recommends
        p.meta is Some,
{
    p.meta->0.slug
}

/// Sorted by date, most recent first.
pub open spec fn sorted_desc(s: Seq<PostView>) -> bool {
    forall|i: int, j: int| 0 <= i < j < s.len() ==> date_le(post_date(s[j]), post_date(s[i]))
}

/// No two posts share a slug.
pub open spec fn unique_slugs(s: Seq<PostView>) -> bool {
    forall|i: int, j: int| 0 <= i < j < s.len() ==> post_slug(s[i]) != post_slug(s[j])
}

pub open spec fn all_dated(s: Seq<PostView>) -> bool {
    forall|i: int| 0 <= i < s.len() ==> post_dated(#[trigger] s[i])
}

/// The sorted post collection.
pub struct PostIndex {
    pub posts: Vec<Post>,
}

impl PostIndex {
    /// The invariant the index maintains for all its consumers.
    pub open spec fn wf(&self) -> bool {
        &&& all_dated(post_views(self.posts@))
        &&& sorted_desc(post_views(self.posts@))
        &&& unique_slugs(post_views(self.posts@))
    }
}

// --- helper lemmas about reinsertion ---

proof fn lemma_views_remove(s: Seq<Post>, i: int)
    requires
        0 <= i < s.len(),
    ensures
        post_views(s.remove(i)) == post_views(s).remove(i),
{
    assert(post_views(s.remove(i)) =~= post_views(s).remove(i));
}

proof fn lemma_views_insert(s: Seq<Post>, j: int, p: Post)
    requires
        0 <= j <= s.len(),
    ensures
        post_views(s.insert(j, p)) == post_views(s).insert(j, p@),
{
    assert(post_views(s.insert(j, p)) =~= post_views(s).insert(j, p@));
}

/// Taking an element out and putting it back elsewhere keeps the multiset
/// of views.
proof fn lemma_reinsert_multiset(s: Seq<PostView>, i: int, j: int)
    requires
        0 <= i < s.len(),
        0 <= j <= s.len() - 1,
    ensures
        s.remove(i).insert(j, s[i]).to_multiset() == s.to_multiset(),
{
    broadcast use vstd::seq_lib::group_to_multiset_ensures;

    let t = s.remove(i);
    lemma_insert_to_multiset(t, j, s[i]);
    assert(t.to_multiset() =~= s.to_multiset().remove(s[i]));
    assert(s.to_multiset().contains(s[i]));
    assert(t.insert(j, s[i]).to_multiset() =~= s.to_multiset());
}

proof fn lemma_insert_to_multiset(s: Seq<PostView>, j: int, e: PostView)
    requires
        0 <= j <= s.len(),
    ensures
        s.insert(j, e).to_multiset() == s.to_multiset().insert(e),
{
    broadcast use vstd::seq_lib::group_to_multiset_ensures;

    assert(s.insert(j, e) =~= s.take(j) + (seq![e] + s.skip(j)));
    vstd::seq_lib::lemma_multiset_commutative(s.take(j), seq![e] + s.skip(j));
    vstd::seq_lib::lemma_multiset_commutative(seq![e], s.skip(j));
    assert(seq![e] =~= Seq::<PostView>::empty().push(e));
    assert(Seq::<PostView>::empty().to_multiset() =~= Multiset::<PostView>::empty());
    assert(seq![e].to_multiset() =~= Multiset::<PostView>::empty().insert(e));
    assert(s =~= s.take(j) + s.skip(j));
    vstd::seq_lib::lemma_multiset_commutative(s.take(j), s.skip(j));
    assert(s.insert(j, e).to_multiset() =~= s.to_multiset().insert(e));
}

/// Reinsertion also keeps slugs pairwise distinct and every post dated.
proof fn lemma_reinsert_pointwise(s: Seq<PostView>, i: int, j: int)
    requires
        0 <= i < s.len(),
        0 <= j <= i,
    ensures
        unique_slugs(s) ==> unique_slugs(s.remove(i).insert(j, s[i])),
        all_dated(s) ==> all_dated(s.remove(i).insert(j, s[i])),
{
    let t = s.remove(i).insert(j, s[i]);
    assert(t.len() == s.len());
    assert forall|k: int| 0 <= k < t.len() implies t[k] == s[reinsert_source(i, j, k)]
        && 0 <= reinsert_source(i, j, k) < s.len() by {}
    if unique_slugs(s) {
        assert forall|k1: int, k2: int| 0 <= k1 < k2 < t.len() implies post_slug(t[k1])
            != post_slug(t[k2]) by {
            let o1 = reinsert_source(i, j, k1);
            let o2 = reinsert_source(i, j, k2);
            assert(o1 != o2);
            if o1 < o2 {
                assert(post_slug(s[o1]) != post_slug(s[o2]));
            } else {
                assert(post_slug(s[o2]) != post_slug(s[o1]));
            }
        }
    }
    if all_dated(s) {
        assert forall|k: int| 0 <= k < t.len() implies post_dated(#[trigger] t[k]) by {
            assert(t[k] == s[reinsert_source(i, j, k)]);
        }
    }
}

/// Which original index lands at position `k` after removing at `i` and
/// reinserting at `j <= i`.
pub open spec fn reinsert_source(i: int, j: int, k: int) -> int {
    if k < j {
        k
    } else if k == j {
        i
    } else if k <= i {
        k - 1
    } else {
        k
    }
}

/// Stable descending insertion: the new post goes after every post whose
/// date is at least as recent.
pub open spec fn insert_desc(sorted: Seq<PostView>, p: PostView) -> Seq<PostView>
    decreases sorted.len(),
{
    if sorted.len() == 0 {
        seq![p]
    } else if date_le(post_date(p), post_date(sorted[0])) {
        seq![sorted[0]] + insert_desc(sorted.drop_first(), p)
    } else {
        seq![p] + sorted
    }
}

/// The stable descending insertion sort of a post sequence.
pub open spec fn sort_posts_desc(s: Seq<PostView>) -> Seq<PostView>
    decreases s.len(),
{
    if s.len() == 0 {
        Seq::empty()
    } else {
        insert_desc(sort_posts_desc(s.drop_last()), s.last())
    }
}

/// The scan position pins where the insertion lands.
proof fn lemma_insert_desc_at(pre: Seq<PostView>, p: PostView, j: int)
    requires
        0 <= j <= pre.len(),
        forall|k: int| 0 <= k < j ==> date_le(post_date(p), post_date(#[trigger] pre[k])),
        j < pre.len() ==> !date_le(post_date(p), post_date(pre[j])),
    ensures
        insert_desc(pre, p) == pre.take(j) + seq![p] + pre.skip(j),
    decreases pre.len(),
{
    if j == 0 {
        if pre.len() == 0 {
            assert(insert_desc(pre, p) =~= pre.take(0) + seq![p] + pre.skip(0));
        } else {
            assert(!date_le(post_date(p), post_date(pre[0])));
            assert(insert_desc(pre, p) =~= pre.take(0) + seq![p] + pre.skip(0));
        }
    } else {
        assert(date_le(post_date(p), post_date(pre[0])));
        let t = pre.drop_first();
        assert forall|k: int| 0 <= k < j - 1 implies date_le(
            post_date(p),
            post_date(#[trigger] t[k]),
        ) by {
            assert(t[k] == pre[k + 1]);
        }
        if j - 1 < t.len() {
            assert(t[j - 1] == pre[j]);
        }
        lemma_insert_desc_at(t, p, j - 1);
        assert(insert_desc(pre, p) =~= pre.take(j) + seq![p] + pre.skip(j));
    }
}

/// The position of the first post carrying this slug.
pub open spec fn find_slug(views: Seq<PostView>, slug: Seq<u8>) -> Option<int>
    decreases views.len(),
{
    if views.len() == 0 {
        None
    } else if post_slug(views[0]) == slug {
        Some(0int)
    } else {
        match find_slug(views.drop_first(), slug) {
            Some(i) => Some(i + 1),
            None => None,
        }
    }
}

/// A first match at `i` pins `find_slug` to `Some(i)`.
pub proof fn lemma_find_slug_some(views: Seq<PostView>, slug: Seq<u8>, i: int)
    requires
        0 <= i < views.len(),
        post_slug(views[i]) == slug,
        forall|k: int| 0 <= k < i ==> post_slug(#[trigger] views[k]) != slug,
    ensures
        find_slug(views, slug) == Some(i),
    decreases views.len(),
{
    if i == 0 {
    } else {
        assert(post_slug(views[0]) != slug);
        let t = views.drop_first();
        assert(t[i - 1] == views[i]);
        assert forall|k: int| 0 <= k < i - 1 implies post_slug(#[trigger] t[k]) != slug by {
            assert(t[k] == views[k + 1]);
        }
        lemma_find_slug_some(t, slug, i - 1);
    }
}

/// No match anywhere pins `find_slug` to `None`.
pub proof fn lemma_find_slug_none(views: Seq<PostView>, slug: Seq<u8>)
    requires
        forall|k: int| 0 <= k < views.len() ==> post_slug(#[trigger] views[k]) != slug,
    ensures
        find_slug(views, slug) is None,
    decreases views.len(),
{
    if views.len() > 0 {
        let t = views.drop_first();
        assert forall|k: int| 0 <= k < t.len() implies post_slug(#[trigger] t[k]) != slug by {
            assert(t[k] == views[k + 1]);
        }
        lemma_find_slug_none(t, slug);
    }
}

/// Where the related-posts window starts: three places before the post,
/// clipped at the front of the collection.
pub open spec fn window_start(p: int) -> int {
    if p >= 3 {
        p - 3
    } else {
        0
    }
}

/// How long the related-posts window is: six entries, or to the end of the
/// collection.
pub open spec fn window_len(p: int, n: int) -> int {
    vstd::math::min(6, n - window_start(p))
}

impl PostIndex {
    /// The related-posts window around the post at `cursor_index`: a
    /// contiguous run of the sorted collection that starts up to three
    /// entries before the post, includes it, and holds at most six entries.
    pub fn get_related_posts<'a>(&'a self, cursor_index: usize) -> (r: Vec<&'a Post>)
        requires
            cursor_index < self.posts@.len(),
        ensures
            r@.len() == window_len(cursor_index as int, self.posts@.len() as int),
            forall|k: int| 0 <= k < r@.len() ==> *r@[k] == self.posts@[window_start(
                cursor_index as int,
            ) + k],
            window_start(cursor_index as int) <= cursor_index < window_start(cursor_index as int)
                + r@.len(),
    {
        let n = self.posts.len();
        proof {
            assert(n == self.posts@.len());
        }
        let start: usize = if cursor_index >= 3 {
            cursor_index - 3
        } else {
            0
        };
        let mut results: Vec<&'a Post> = Vec::new();
        let mut k: usize = start;
        while k <= cursor_index
            invariant
                start == window_start(cursor_index as int),
                start <= k <= cursor_index + 1,
                cursor_index < self.posts@.len() <= usize::MAX,
                results@.len() == k - start,
                forall|t: int| 0 <= t < results@.len() ==> *results@[t] == self.posts@[start + t],
            decreases cursor_index + 1 - k,
        {
            results.push(&self.posts[k]);
            k += 1;
        }
        while results.len() < 6 && k < self.posts.len()
            invariant
                start == window_start(cursor_index as int),
                cursor_index < k <= self.posts@.len() <= usize::MAX,
                results@.len() == k - start,
                cursor_index + 1 - start <= results@.len() <= 6,
                forall|t: int| 0 <= t < results@.len() ==> *results@[t] == self.posts@[start + t],
            decreases self.posts@.len() - k,
        {
            results.push(&self.posts[k]);
            k += 1;
        }
        results
    }

    /// The first post carrying this slug, if any: the linear scan that
    /// next-post references resolve through.
    pub fn find_by_slug(&self, slug: &Vec<u8>) -> (r: Option<usize>)
        requires
            self.wf(),
        ensures
            match r {
                Some(i) => {
                    &&& i < self.posts@.len()
                    &&& post_slug(post_views(self.posts@)[i as int]) == slug@
                    &&& forall|k: int| 0 <= k < i ==> post_slug(
                        #[trigger] post_views(self.posts@)[k],
                    ) != slug@
                },
                None => forall|k: int| 0 <= k < self.posts@.len() ==> post_slug(
                    #[trigger] post_views(self.posts@)[k],
                ) != slug@,
            },
    {
        let ghost views = post_views(self.posts@);
        let mut i: usize = 0;
        while i < self.posts.len()
            invariant
                0 <= i <= self.posts@.len(),
                views == post_views(self.posts@),
                self.wf(),
                forall|k: int| 0 <= k < i ==> post_slug(#[trigger] views[k]) != slug@,
            decreases self.posts@.len() - i,
        {
            proof {
                assert(views[i as int] == self.posts@[i as int]@);
                assert(post_dated(views[i as int]));
            }
            if bytes_eq(&self.posts[i].meta.as_ref().unwrap().slug, slug) {
                return Some(i);
            }
            i += 1;
        }
        None
    }

    /// Builds the index: rejects posts without dated front matter and
    /// duplicate slugs, then sorts by date, most recent first, keeping the
    /// input order of posts with equal dates.
    pub fn new(posts: Vec<Post>) -> (r: Result<PostIndex, IndexError>)
        ensures
            match r {
                Ok(ix) => {
                    &&& ix.wf()
                    &&& all_dated(post_views(posts@))
                    &&& unique_slugs(post_views(posts@))
                    &&& post_views(ix.posts@) == sort_posts_desc(post_views(posts@))
                    &&& post_views(ix.posts@).to_multiset() == post_views(posts@).to_multiset()
                    &&& ix.posts@.len() == posts@.len()
                },
                Err(IndexError::MissingMeta) => exists|i: int|
                    0 <= i < posts@.len() && (#[trigger] posts@[i])@.meta is None,
                Err(IndexError::MissingDate) => !all_dated(post_views(posts@)) && forall|i: int|
                    0 <= i < posts@.len() ==> (#[trigger] posts@[i])@.meta is Some,
                Err(IndexError::DuplicateSlug) => all_dated(post_views(posts@)) && !unique_slugs(
                    post_views(posts@),
                ),
            },
    {
        let ghost orig = post_views(posts@);
        // every post must carry front matter with a date
        let mut i: usize = 0;
        while i < posts.len()
            invariant
                0 <= i <= posts@.len(),
                orig == post_views(posts@),
                forall|k: int| 0 <= k < i ==> post_dated(#[trigger] orig[k]),
            decreases posts@.len() - i,
        {
            match &posts[i].meta {
                None => {
                    proof {
                        assert(posts@[i as int]@.meta is None);
                    }
                    return Err(IndexError::MissingMeta);
                },
                Some(pm) => {
                    proof {
                        assert(orig[i as int] == posts@[i as int]@);
                    }
                    if pm.date.is_none() {
                        // does any post lack front matter altogether?
                        let mut k: usize = 0;
                        while k < posts.len()
                            invariant
                                0 <= k <= posts@.len(),
                                orig == post_views(posts@),
                                forall|t: int| 0 <= t < k ==> (#[trigger] orig[t]).meta is Some,
                            decreases posts@.len() - k,
                        {
                            if posts[k].meta.is_none() {
                                proof {
                                    assert(posts@[k as int]@.meta is None);
                                }
                                return Err(IndexError::MissingMeta);
                            }
                            proof {
                                assert(orig[k as int] == posts@[k as int]@);
                            }
                            k += 1;
                        }
                        proof {
                            assert(orig[i as int] == posts@[i as int]@);
                            assert(!post_dated(orig[i as int]));
                            assert forall|tt: int| 0 <= tt < posts@.len() implies (
                            #[trigger] posts@[tt])@.meta is Some by {
                                assert(orig[tt].meta is Some);
                            }
                        }
                        return Err(IndexError::MissingDate);
                    }
                },
            }
            i += 1;
        }
        assert(all_dated(orig));
        // slugs must be unique
        let mut a: usize = 0;
        while a < posts.len()
            invariant
                0 <= a <= posts@.len(),
                orig == post_views(posts@),
                all_dated(orig),
                forall|x: int, y: int| 0 <= x < y < posts@.len() && x < a ==> post_slug(orig[x])
                    != post_slug(orig[y]),
            decreases posts@.len() - a,
        {
            let mut b: usize = a + 1;
            while b < posts.len()
                invariant
                    0 <= a < b <= posts@.len() || (a == b && a >= posts@.len()),
                    a < posts@.len(),
                    orig == post_views(posts@),
                    all_dated(orig),
                    forall|y: int| a < y < b ==> post_slug(orig[a as int]) != post_slug(
                        #[trigger] orig[y],
                    ),
                decreases posts@.len() - b,
            {
                proof {
                    assert(orig[a as int] == posts@[a as int]@);
                    assert(orig[b as int] == posts@[b as int]@);
                    assert(post_dated(orig[a as int]));
                    assert(post_dated(orig[b as int]));
                }
                let sa = &posts[a].meta.as_ref().unwrap().slug;
                let sb = &posts[b].meta.as_ref().unwrap().slug;
                if bytes_eq(sa, sb) {
                    proof {
                        assert(post_slug(orig[a as int]) == post_slug(orig[b as int]));
                        assert(!unique_slugs(orig));
                    }
                    return Err(IndexError::DuplicateSlug);
                }
                b += 1;
            }
            a += 1;
        }
        assert(unique_slugs(orig));
        // insertion sort by date, descending, stable
        let mut v = posts;
        let mut s: usize = 1;
        proof {
            if orig.len() == 0 {
                assert(post_views(v@) =~= sort_posts_desc(orig.take(0)) + orig.skip(0));
            } else {
                let one = orig.take(1);
                assert(one.drop_last() =~= Seq::<PostView>::empty());
                assert(sort_posts_desc(Seq::<PostView>::empty()) =~= Seq::<PostView>::empty());
                assert(sort_posts_desc(one) =~= insert_desc(Seq::<PostView>::empty(), orig[0]));
                assert(insert_desc(Seq::<PostView>::empty(), orig[0]) =~= seq![orig[0]]);
                assert(post_views(v@) =~= sort_posts_desc(one) + orig.skip(1));
            }
        }
        while s < v.len()
            invariant
                1 <= s <= v@.len() || (s == 1 && v@.len() == 0),
                v@.len() == posts@.len(),
                orig == post_views(posts@),
                all_dated(post_views(v@)),
                unique_slugs(post_views(v@)),
                post_views(v@).to_multiset() == orig.to_multiset(),
                post_views(v@) == sort_posts_desc(orig.take(vstd::math::min(
                    s as int,
                    v@.len() as int,
                ))) + orig.skip(vstd::math::min(s as int, v@.len() as int)),
                sorted_desc(post_views(v@).take(vstd::math::min(s as int, v@.len() as int))),
            decreases v@.len() - s,
        {
            let ghost before = post_views(v@);
            proof {
                assert(before[s as int] == v@[s as int]@);
                assert(post_dated(before[s as int]));
            }
            let pdate = v[s].meta.as_ref().unwrap().date.unwrap();
            // find the first position whose date is strictly older
            let mut j: usize = 0;
            while j < s
                invariant_except_break
                    0 <= j <= s < v@.len(),
                    before == post_views(v@),
                    all_dated(before),
                    pdate == post_date(before[s as int]),
                    forall|k: int| 0 <= k < j ==> date_le(pdate, post_date(#[trigger] before[k])),
                ensures
                    0 <= j <= s < v@.len(),
                    before == post_views(v@),
                    pdate == post_date(before[s as int]),
                    forall|k: int| 0 <= k < j ==> date_le(pdate, post_date(#[trigger] before[k])),
                    j < s ==> !date_le(pdate, post_date(before[j as int])),
                decreases s - j,
            {
                proof {
                    assert(before[j as int] == v@[j as int]@);
                    assert(post_dated(before[j as int]));
                }
                let other = v[j].meta.as_ref().unwrap().date.unwrap();
                if !date_le_exec(&pdate, &other) {
                    break;
                }
                j += 1;
            }
            proof {
                if j < s {
                    lemma_date_le_total(pdate, post_date(before[j as int]));
                }
            }
            let ghost v0 = v@;
            let p = v.remove(s);
            let ghost v1 = v@;
            v.insert(j, p);
            proof {
                lemma_views_remove(v0, s as int);
                lemma_views_insert(v1, j as int, p);
                assert(p@ == before[s as int]);
                assert(post_views(v@) =~= before.remove(s as int).insert(j as int, before[s as int]));
                lemma_reinsert_multiset(before, s as int, j as int);
                lemma_reinsert_pointwise(before, s as int, j as int);
                let t = post_views(v@);
                assert forall|x: int, y: int| 0 <= x < y < s + 1 implies date_le(
                    post_date(t[y]),
                    post_date(t[x]),
                ) by {
                    let ox = reinsert_source(s as int, j as int, x);
                    let oy = reinsert_source(s as int, j as int, y);
                    assert(t[x] == before[ox]);
                    assert(t[y] == before[oy]);
                    let ghost pre = before.take(s as int);
                    assert(sorted_desc(pre));
                    if y == j {
                        // x < j: the scan said the new post is at most each of them
                        assert(date_le(pdate, post_date(before[ox])));
                    } else if x == j {
                        // y > j: the element at j was strictly older, and the prefix is sorted
                        assert(oy < s);
                        if j < s {
                            if (j as int) < oy {
                                assert(pre[oy] == before[oy]);
                                assert(pre[j as int] == before[j as int]);
                                assert(date_le(post_date(pre[oy]), post_date(pre[j as int])));
                                assert(date_le(post_date(before[oy]), post_date(before[j as int])));
                            }
                            lemma_date_le_trans(
                                post_date(before[oy]),
                                post_date(before[j as int]),
                                pdate,
                            );
                        }
                    } else {
                        assert(ox < oy < s);
                        assert(pre[oy] == before[oy]);
                        assert(pre[ox] == before[ox]);
                        assert(date_le(post_date(pre[oy]), post_date(pre[ox])));
                        assert(date_le(post_date(before[oy]), post_date(before[ox])));
                    }
                }
                assert(sorted_desc(t.take(s + 1)));
                // the result so far is exactly the stable spec-level sort
                let pre = sort_posts_desc(orig.take(s as int));
                assert(pre.len() == s);
                assert(pre =~= before.take(s as int));
                assert(post_date(before[s as int]) == pdate);
                assert forall|k: int| 0 <= k < j implies date_le(
                    post_date(before[s as int]),
                    post_date(#[trigger] pre[k]),
                ) by {
                    assert(pre[k] == before[k]);
                    assert(date_le(pdate, post_date(before[k])));
                }
                if (j as int) < s {
                    assert(pre[j as int] == before[j as int]);
                }
                lemma_insert_desc_at(pre, before[s as int], j as int);
                assert(orig.take(s + 1).drop_last() =~= orig.take(s as int));
                assert(orig.take(s + 1).last() == orig[s as int]);
                assert(before[s as int] == orig[s as int]);
                assert(sort_posts_desc(orig.take(s + 1)) == insert_desc(pre, before[s as int]));
                assert(t =~= pre.take(j as int) + seq![before[s as int]] + pre.skip(j as int)
                    + orig.skip(s + 1));
                assert(t =~= sort_posts_desc(orig.take(s + 1)) + orig.skip(s + 1));
            }
            s += 1;
        }
        proof {
            assert(post_views(v@).take(v@.len() as int) =~= post_views(v@));
            assert(orig.take(vstd::math::min(s as int, v@.len() as int)) =~= orig);
            assert(orig.skip(vstd::math::min(s as int, v@.len() as int))
                =~= Seq::<PostView>::empty());
            assert(post_views(v@) =~= sort_posts_desc(orig));
        }
        Ok(PostIndex { posts: v })
    }
}

} // verus!
