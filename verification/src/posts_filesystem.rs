//! Posts stored as files: one directory per post, named by its id, holding `metadata.json`
//! and `content.bin`; and an index from slugs to ids.
use vstd::prelude::*;
use crate::assoc::{
    assoc_get, assoc_insert, assoc_lookup, assoc_map, keys_distinct, lemma_lookup_at,
    lemma_lookup_remove, lemma_lookup_some,
};
use crate::html::{i32_string, spec_signed_decimal};
use crate::post::BlogPost;

verus! {

/// `base` joined with `p` as a Unix `PathBuf::push` joins them: an absolute `p` replaces
/// `base`; otherwise a `/` is put between them unless `base` is empty or already ends in one.
pub open spec fn path_join(base: Seq<char>, p: Seq<char>) -> Seq<char> {
    if p.len() > 0 && p[0] == '/' {
        p
    } else if base.len() == 0 || base.last() == '/' {
        base + p
    } else {
        base + seq!['/'] + p
    }
}

/// Joins two paths (see `path_join`).
pub fn join_path(base: &str, p: &str) -> (r: String)
    ensures
        r@ == path_join(base@, p@),
{
    let pc = crate::text::chars_of(p);
    if pc.len() > 0 && pc[0] == '/' {
        return p.to_owned();
    }
    let bc = crate::text::chars_of(base);
    let mut r = base.to_owned();
    if !(bc.len() == 0 || bc[bc.len() - 1] == '/') {
        crate::text::push_char(&mut r, '/');
    }
    r.append(p);
    r
}

/// A store of posts under a base directory, with an index from slugs to ids.
pub struct PostsFS {
    base_dir: String,
    index: Vec<(String, String)>,
}

impl PostsFS {
    #[verifier::type_invariant]
    closed spec fn inv(self) -> bool {
        keys_distinct(self.index@)
    }

    /// The base directory.
    pub closed spec fn base(self) -> Seq<char> {
        self.base_dir@
    }

    /// The base directory.
    pub fn base_dir(&self) -> (r: &String)
        ensures
            r@ == self.base(),
    {
        &self.base_dir
    }

    /// The index: which id each known slug belongs to.
    pub closed spec fn index(self) -> Map<Seq<char>, Seq<char>> {
        Map::new(
            |k: Seq<char>| assoc_lookup(self.index@, k) is Some,
            |k: Seq<char>| (assoc_lookup(self.index@, k)->0)@,
        )
    }

    /// A store under `base_dir` with an empty index.
    pub fn with_base_dir(base_dir: String) -> (fs: PostsFS)
        ensures
            fs.base() == base_dir@,
            fs.index() == Map::<Seq<char>, Seq<char>>::empty(),
    {
        let fs = PostsFS { base_dir, index: Vec::new() };
        assert(fs.index() =~= Map::<Seq<char>, Seq<char>>::empty());
        fs
    }

    /// The directory of the post with id `id`.
    pub fn entry_path(&self, id: &str) -> (r: String)
        ensures
            r@ == path_join(self.base(), id@),
    {
        join_path(self.base_dir.as_str(), id)
    }

    /// The metadata file of the post with id `id`.
    pub fn metadata_path(&self, id: &str) -> (r: String)
        ensures
            r@ == path_join(path_join(self.base(), id@), "metadata.json"@),
    {
        let e = self.entry_path(id);
        join_path(e.as_str(), "metadata.json")
    }

    /// The content file of the post with id `id`.
    pub fn content_path(&self, id: &str) -> (r: String)
        ensures
            r@ == path_join(path_join(self.base(), id@), "content.bin"@),
    {
        let e = self.entry_path(id);
        join_path(e.as_str(), "content.bin")
    }

    /// Records that `slug` belongs to the post with id `id`.
    pub fn index_insert(&mut self, slug: String, id: String)
        ensures
            final(self).index() == old(self).index().insert(slug@, id@),
            final(self).base() == old(self).base(),
    {
        proof {
            use_type_invariant(&*self);
        }
        let ghost before = *self;
        let ghost k = slug@;
        let ghost v = id@;
        let mut index: Vec<(String, String)> = Vec::new();
        std::mem::swap(&mut index, &mut self.index);
        let ghost old_index = index@;
        assoc_insert(&mut index, slug, id);
        self.index = index;
        proof {
            assert forall|k2: Seq<char>| #[trigger] self.index().contains_key(k2) == before.index().insert(k, v).contains_key(k2) by {
                assert(assoc_map(self.index@).contains_key(k2) == assoc_map(old_index).insert(k, assoc_map(self.index@)[k]).contains_key(k2));
            }
            assert forall|k2: Seq<char>| #[trigger] self.index().contains_key(k2) implies self.index()[k2] == before.index().insert(k, v)[k2] by {
                assert(assoc_map(self.index@) == assoc_map(old_index).insert(k, assoc_map(self.index@)[k]));
                if k2 != k {
                    assert(assoc_map(self.index@)[k2] == assoc_map(old_index)[k2]);
                }
            }
            assert(self.index() =~= before.index().insert(k, v));
        }
    }

    /// Records the slug and the id of each post, in order (a later post with the same slug
    /// wins).
    pub fn build_index(&mut self, entries: Vec<BlogPost>)
        ensures
            final(self).index() == indexed(old(self).index(), entries@),
            final(self).base() == old(self).base(),
    {
        let n = entries.len();
        let mut i: usize = 0;
        let ghost start = self.index();
        while i < n
            invariant
                n == entries@.len(),
                i <= n,
                self.index() == indexed(start, entries@.take(i as int)),
                self.base() == old(self).base(),
            decreases n - i,
        {
            proof {
                let next = entries@.take(i + 1);
                assert(next.drop_last() == entries@.take(i as int));
                assert(next.last() == entries@[i as int]);
            }
            let slug = entries[i].slug.clone();
            let id = i32_string(entries[i].id);
            self.index_insert(slug, id);
            i = i + 1;
        }
        assert(entries@.take(n as int) == entries@);
    }

    /// The id that `slug` belongs to, if the index knows it.
    pub fn lookup_slug(&self, slug: &str) -> (r: Option<String>)
        ensures
            match r {
                Some(id) => self.index().contains_key(slug@) && self.index()[slug@] == id@,
                None => !self.index().contains_key(slug@),
            },
    {
        proof {
            use_type_invariant(self);
        }
        let k = slug.to_owned();
        match assoc_get(&self.index, &k) {
            Some(id) => Some(id.clone()),
            None => None,
        }
    }

    /// Forgets one slug that belongs to the post with id `id`, if there is one.
    pub fn index_remove_id(&mut self, id: &str) -> (r: Option<String>)
        ensures
            final(self).base() == old(self).base(),
            match r {
                Some(slug) => old(self).index().contains_key(slug@) && old(self).index()[slug@]
                    == id@ && final(self).index() == old(self).index().remove(slug@),
                None => final(self).index() == old(self).index() && forall|s: Seq<char>|
                    #[trigger] old(self).index().contains_key(s) ==> old(self).index()[s] != id@,
            },
    {
        proof {
            use_type_invariant(&*self);
        }
        let ghost before = self.index@;
        let ghost s0 = *self;
        assert(s0 == *old(self));
        let n = self.index.len();
        let target = id.to_owned();
        let mut i: usize = 0;
        while i < n
            invariant
                n == self.index@.len(),
                *self == s0,
                s0 == *old(self),
                s0.index@ == before,
                target@ == id@,
                i <= n,
                keys_distinct(before),
                forall|j: int| 0 <= j < i ==> before[j].1@ != target@,
            decreases n - i,
        {
            if self.index[i].1 == target {
                let mut index: Vec<(String, String)> = Vec::new();
                std::mem::swap(&mut index, &mut self.index);
                let (slug, _) = index.remove(i);
                proof {
                    lemma_lookup_at(before, i as int);
                    assert(slug == before[i as int].0);
                    assert(before[i as int].1@ == target@);
                    assert(target@ == id@);
                    assert(assoc_lookup(before, slug@) == Some(before[i as int].1));
                    assert(s0.index().contains_key(slug@));
                    assert(s0.index()[slug@] == id@);
                    assert forall|k: Seq<char>| #[trigger] assoc_lookup(index@, k) == (if k == slug@ { None } else { assoc_lookup(before, k) }) by {
                        lemma_lookup_remove(before, i as int, k);
                    }
                    assert(keys_distinct(index@));
                }
                self.index = index;
                proof {
                    assert forall|k: Seq<char>| #[trigger] self.index().contains_key(k) == s0.index().remove(slug@).contains_key(k) by {}
                    assert forall|k: Seq<char>| #[trigger] self.index().contains_key(k) implies self.index()[k] == s0.index().remove(slug@)[k] by {}
                    assert(self.index() =~= s0.index().remove(slug@));
                    assert(self.base() == s0.base());
                }
                return Some(slug);
            }
            i = i + 1;
        }
        proof {
            assert forall|s: Seq<char>| #[trigger] s0.index().contains_key(s) implies s0.index()[s] != id@ by {
                lemma_lookup_some(before, s);
                let j = choose|j: int| 0 <= j < before.len() && before[j].0@ == s;
                lemma_lookup_at(before, j);
            }
        }
        None
    }

    /// The posts on which `predicate` holds, in order.
    pub fn filter<F: Fn(&BlogPost) -> bool>(all: Vec<BlogPost>, predicate: F) -> (r: Vec<BlogPost>)
        requires
            forall|p: BlogPost| #[trigger] predicate.requires((&p,)),
        ensures
            filtered_by(all@, r@, predicate),
    {
        let mut r: Vec<BlogPost> = Vec::new();
        let ghost all_s = all@;
        for p in it: all
            invariant
                it.seq() == all_s,
                forall|p: BlogPost| #[trigger] predicate.requires((&p,)),
                filtered_by(all_s.take(it.index() as int), r@, predicate),
        {
            let ghost i = it.index();
            proof {
                let next = all_s.take(i + 1);
                assert(next.drop_last() == all_s.take(i as int));
                assert(next.last() == all_s[i as int]);
            }
            let keep = predicate(&p);
            let ghost r0 = r@;
            if keep {
                r.push(p);
                assert(r@.drop_last() == r0);
            }
        }
        proof {
            assert(all_s.take(all_s.len() as int) == all_s);
        }
        r
    }
}

/// The index after recording the slug and id of each post in turn.
pub open spec fn indexed(m: Map<Seq<char>, Seq<char>>, posts: Seq<BlogPost>) -> Map<Seq<char>, Seq<char>>
    decreases posts.len(),
{
    if posts.len() == 0 {
        m
    } else {
        indexed(m, posts.drop_last()).insert(
            posts.last().slug@,
            spec_signed_decimal(posts.last().id as int),
        )
    }
}

/// `kept` holds, in order, exactly the posts of `all` on which a call of `predicate` returned
/// `true`.
pub open spec fn filtered_by<F: Fn(&BlogPost) -> bool>(
    all: Seq<BlogPost>,
    kept: Seq<BlogPost>,
    predicate: F,
) -> bool
    decreases all.len(),
{
    if all.len() == 0 {
        kept.len() == 0
    } else {
        let p = all.last();
        ||| predicate.ensures((&p,), true) && kept.len() > 0 && kept.last() == p && filtered_by(
            all.drop_last(),
            kept.drop_last(),
            predicate,
        )
        ||| predicate.ensures((&p,), false) && filtered_by(all.drop_last(), kept, predicate)
    }
}


/// After recording that `slug` belongs to `id`, a lookup of `slug` finds `id`, and every other
/// slug finds what it found before.
pub proof fn lemma_lookup_after_index_insert(
    before: PostsFS,
    after: PostsFS,
    slug: Seq<char>,
    id: Seq<char>,
    other: Seq<char>,
)
    requires
        after.index() == before.index().insert(slug, id),
    ensures
        after.index().contains_key(slug) && after.index()[slug] == id,
        other != slug ==> after.index().contains_key(other) == before.index().contains_key(other),
        other != slug && before.index().contains_key(other) ==> after.index()[other]
            == before.index()[other],
{
}

/// After indexing posts, a slug finds the id of the last post with that slug; a slug of no
/// post finds what it found before.
pub proof fn lemma_indexed_lookup(m: Map<Seq<char>, Seq<char>>, posts: Seq<BlogPost>, slug: Seq<char>)
    ensures
        forall|i: int|
            0 <= i < posts.len() && #[trigger] posts[i].slug@ == slug && (forall|j: int|
                i < j < posts.len() ==> #[trigger] posts[j].slug@ != slug) ==> indexed(
                m,
                posts,
            ).contains_key(slug) && indexed(m, posts)[slug] == spec_signed_decimal(
                posts[i].id as int,
            ),
        (forall|i: int| 0 <= i < posts.len() ==> #[trigger] posts[i].slug@ != slug) ==> indexed(
            m,
            posts,
        ).contains_key(slug) == m.contains_key(slug) && indexed(m, posts)[slug] == m[slug],
    decreases posts.len(),
{
    if posts.len() > 0 {
        let init = posts.drop_last();
        lemma_indexed_lookup(m, init, slug);
        let last = posts.len() - 1;
        assert forall|i: int|
            0 <= i < posts.len() && #[trigger] posts[i].slug@ == slug && (forall|j: int|
                i < j < posts.len() ==> #[trigger] posts[j].slug@ != slug) implies indexed(
                m,
                posts,
            ).contains_key(slug) && indexed(m, posts)[slug] == spec_signed_decimal(
                posts[i].id as int,
            ) by {
            if i < last {
                assert(posts[last].slug@ != slug);
                assert(init[i] == posts[i]);
                assert forall|j: int| i < j < init.len() implies #[trigger] init[j].slug@ != slug by {
                    assert(init[j] == posts[j]);
                    assert(posts[j].slug@ != slug);
                }
            }
        }
        if forall|i: int| 0 <= i < posts.len() ==> #[trigger] posts[i].slug@ != slug {
            assert(posts[last].slug@ != slug);
            assert forall|i: int| 0 <= i < init.len() implies #[trigger] init[i].slug@ != slug by {
                assert(init[i] == posts[i]);
                assert(posts[i].slug@ != slug);
            }
        }
    }
}

} // verus!
