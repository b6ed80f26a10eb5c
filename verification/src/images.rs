//! A cache of decoded images, keyed by file path.
//!
//! Decoding a file is the caller's part; the cache remembers what was decoded
//! under each path and hands out copies of it.

use vstd::prelude::*;

use image::DynamicImage;

verus! {

#[verifier::external_type_specification]
#[verifier::external_body]
pub struct ExDynamicImage(DynamicImage);

/// A copy of a decoded image.
///
/// Calls `DynamicImage::clone`, which copies the pixel buffer, its width,
/// height and color space; the contract states that the copy equals the
/// original.
#[verifier::external_body]
fn copy_image(img: &DynamicImage) -> (r: DynamicImage)
    ensures
        r == *img,
{
    img.clone()
}

/// The image remembered under `key`, if any.
pub open spec fn lookup(entries: Seq<(Seq<u8>, DynamicImage)>, key: Seq<u8>) -> Option<DynamicImage>
    decreases entries.len(),
{
    if entries.len() == 0 {
        None
    } else if entries.last().0 == key {
        Some(entries.last().1)
    } else {
        lookup(entries.drop_last(), key)
    }
}

/// A cache of decoded images by path (the path's bytes).
#[derive(Debug)]
pub struct ImageLoader {
    cache: Vec<(Vec<u8>, DynamicImage)>,
}

impl ImageLoader {
    /// The cached entries: path bytes and image.
    pub closed spec fn entries(&self) -> Seq<(Seq<u8>, DynamicImage)> {
        self.cache@.map_values(|e: (Vec<u8>, DynamicImage)| (e.0@, e.1))
    }

    /// No path is cached twice.
    #[verifier::type_invariant]
    spec fn paths_distinct(&self) -> bool {
        forall|i: int, j: int| 0 <= i < j < self.cache@.len() ==> #[trigger] self.cache@[i].0@ != #[trigger] self.cache@[j].0@
    }

    /// The image cached under `path`, if any.
    pub open spec fn cached_at(&self, path: Seq<u8>) -> Option<DynamicImage> {
        lookup(self.entries(), path)
    }

    /// An empty cache.
    pub fn new() -> (r: Self)
        ensures
            forall|p: Seq<u8>| r.cached_at(p) is None,
            r.entries().len() == 0,
    {
        ImageLoader { cache: Vec::new() }
    }

    fn position(&self, path: &[u8]) -> (r: Option<usize>)
        ensures
            r matches Some(k) ==> k < self.cache@.len() && self.cache@[k as int].0@ == path@,
            r is None ==> forall|j: int| 0 <= j < self.cache@.len() ==> self.cache@[j].0@ != path@,
    {
        let mut i: usize = 0;
        while i < self.cache.len()
            invariant
                i <= self.cache@.len(),
                forall|j: int| 0 <= j < i ==> self.cache@[j].0@ != path@,
            decreases self.cache@.len() - i,
        {
            if bytes_equal(self.cache[i].0.as_slice(), path) {
                return Some(i);
            }
            i = i + 1;
        }
        None
    }

    /// A copy of the image cached under `path`, if any.
    pub fn cached(&self, path: &[u8]) -> (r: Option<DynamicImage>)
        ensures
            r == self.cached_at(path@),
    {
        proof {
            use_type_invariant(self);
        }
        match self.position(path) {
            Some(k) => {
                proof {
                    lemma_lookup_at(self.entries(), k as int);
                }
                Some(copy_image(&self.cache[k].1))
            },
            None => {
                proof {
                    lemma_lookup_absent(self.entries(), path@);
                }
                None
            },
        }
    }

    /// Remembers `img` under `path`, replacing what was cached there; every
    /// other path keeps its image.
    pub fn remember(&mut self, path: Vec<u8>, img: DynamicImage)
        ensures
            final(self).cached_at(path@) == Some(img),
            forall|p: Seq<u8>| p != path@ ==> final(self).cached_at(p) == old(self).cached_at(p),
            final(self).entries().len() == old(self).entries().len() + (if old(self).cached_at(path@) is Some { 0int } else { 1int }),
    {
        proof {
            use_type_invariant(&*self);
        }
        let ghost key = path@;
        match self.position(path.as_slice()) {
            Some(k) => {
                let ghost before = self.entries();
                proof {
                    lemma_lookup_at(before, k as int);
                }
                let mut cache = Vec::new();
                std::mem::swap(&mut cache, &mut self.cache);
                cache.set(k, (path, img));
                self.cache = cache;
                proof {
                    assert(self.entries() =~= before.update(k as int, (key, img)));
                    assert forall|p: Seq<u8>| p != key implies #[trigger] lookup(self.entries(), p) == lookup(before, p) by {
                        lemma_lookup_update(before, k as int, (key, img), p);
                    }
                    lemma_lookup_at(self.entries(), k as int);
                }
            },
            None => {
                let ghost before = self.entries();
                proof {
                    lemma_lookup_absent(before, key);
                }
                let mut cache = Vec::new();
                std::mem::swap(&mut cache, &mut self.cache);
                cache.push((path, img));
                self.cache = cache;
                proof {
                    assert(self.entries() =~= before.push((key, img)));
                    assert(self.entries().drop_last() == before);
                }
            },
        }
    }

    /// Forgets every cached image.
    pub fn clear_cache(&mut self)
        ensures
            forall|p: Seq<u8>| final(self).cached_at(p) is None,
            final(self).entries().len() == 0,
    {
        self.cache = Vec::new();
        proof {
            assert(self.entries() =~= Seq::<(Seq<u8>, DynamicImage)>::empty());
        }
    }

    /// The number of cached paths.
    pub fn cache_size(&self) -> (r: usize)
        ensures
            r == self.entries().len(),
    {
        self.cache.len()
    }
}

fn bytes_equal(a: &[u8], b: &[u8]) -> (r: bool)
    ensures
        r == (a@ == b@),
{
    if a.len() != b.len() {
        return false;
    }
    let mut i: usize = 0;
    while i < a.len()
        invariant
            a@.len() == b@.len(),
            i <= a@.len(),
            forall|j: int| 0 <= j < i ==> a@[j] == b@[j],
        decreases a@.len() - i,
    {
        if a[i] != b[i] {
            return false;
        }
        i = i + 1;
    }
    proof {
        assert(a@ =~= b@);
    }
    true
}

proof fn lemma_lookup_absent(entries: Seq<(Seq<u8>, DynamicImage)>, key: Seq<u8>)
    requires
        forall|j: int| 0 <= j < entries.len() ==> entries[j].0 != key,
    ensures
        lookup(entries, key) is None,
    decreases entries.len(),
{
    if entries.len() > 0 {
        lemma_lookup_absent(entries.drop_last(), key);
    }
}

/// With distinct keys, the entry at `k` is what its key looks up.
proof fn lemma_lookup_at(entries: Seq<(Seq<u8>, DynamicImage)>, k: int)
    requires
        0 <= k < entries.len(),
        forall|i: int, j: int| 0 <= i < j < entries.len() ==> #[trigger] entries[i].0 != #[trigger] entries[j].0,
    ensures
        lookup(entries, entries[k].0) == Some(entries[k].1),
    decreases entries.len(),
{
    if k < entries.len() - 1 {
        let rest = entries.drop_last();
        assert(entries[k].0 != entries[entries.len() - 1].0);
        assert(rest[k] == entries[k]);
        lemma_lookup_at(rest, k);
    }
}

proof fn lemma_lookup_update(entries: Seq<(Seq<u8>, DynamicImage)>, k: int, e: (Seq<u8>, DynamicImage), p: Seq<u8>)
    requires
        0 <= k < entries.len(),
        entries[k].0 == e.0,
        p != e.0,
    ensures
        lookup(entries.update(k, e), p) == lookup(entries, p),
    decreases entries.len(),
{
    if entries.len() > 0 {
        if k < entries.len() - 1 {
            assert(entries.update(k, e).drop_last() == entries.drop_last().update(k, e));
            lemma_lookup_update(entries.drop_last(), k, e, p);
        } else {
            assert(entries.update(k, e).drop_last() == entries.drop_last());
        }
    }
}

} // verus!
