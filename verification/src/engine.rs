//! The engine: core resources, the single live compilation environment, and
//! the last successfully compiled document.
//!
//! A compile request is served in three steps. `prepare_compile` ensures the
//! environment matches the requested main path — replacing it wholesale when
//! the path changed, which enforces the single-open-document model — and
//! installs the edited text as the main overlay. The external compiler then
//! queries the environment. On success `finish_compile` diffs the fresh page
//! hashes against the export cache, collects the indices of the pages that
//! actually changed, and atomically replaces the stored document; on failure
//! the stored document is left untouched and the diagnostics are translated
//! separately. Later render and export requests read the stored document.

use vstd::prelude::*;
use crate::NoleError;
use crate::environment::NoleWorld;
use crate::export_cache::ExportCache;
use crate::fonts::TypstCore;
use crate::ident::spec_resolve;

verus! {

/// One compiled page: its size in millipoints (thousandths of a
/// typographic point) and the structural hash of its frame, a pure function
/// of the drawn content and geometry.
#[derive(Clone, Copy, Debug, PartialEq, Eq, Structural)]
pub struct Page {
    pub width: u64,
    pub height: u64,
    pub frame_hash: u64,
}

/// A successfully compiled document: its pages in order. Immutable once
/// produced; replaced atomically by the next successful compile.
pub struct Document {
    pub pages: Vec<Page>,
}

/// Answer to a successful compile request. Width and height are those of
/// the first page, in millipoints.
pub struct TypstCompileResponse {
    pub updated_idx: Vec<usize>,
    pub n_pages: usize,
    pub width: u64,
    pub height: u64,
}

/// The structural hashes of a page list, in order.
pub open spec fn spec_hashes(pages: Seq<Page>) -> Seq<u64> {
    pages.map_values(|p: Page| p.frame_hash)
}

/// The export cache after the first `n` fresh page hashes have been
/// recorded in order, starting from `cache`.
pub open spec fn spec_cache_after_pages(cache: Seq<u64>, hashes: Seq<u64>, n: int) -> Seq<u64> {
    if n <= cache.len() {
        hashes.take(n) + cache.skip(n)
    } else {
        hashes.take(n)
    }
}

/// The indices among the first `n` pages whose hash misses the export
/// cache: unseen indices and indices whose stored hash differs.
pub open spec fn spec_changed_upto(cache: Seq<u64>, hashes: Seq<u64>, n: int) -> Seq<usize>
    decreases n,
{
    if n <= 0 {
        Seq::empty()
    } else {
        spec_changed_upto(cache, hashes, n - 1) + (if ExportCache::spec_hit(
            cache,
            n - 1,
            hashes[n - 1],
        ) {
            Seq::<usize>::empty()
        } else {
            seq![(n - 1) as usize]
        })
    }
}

/// Recording page hashes in order consults the original cache: position `i`
/// is untouched by the earlier records, so the hit at `i` and the table
/// after it are determined by the original cache and the fresh hashes.
proof fn lemma_cache_step(cache: Seq<u64>, hashes: Seq<u64>, i: int)
    requires
        0 <= i < hashes.len(),
    ensures
        ExportCache::spec_hit(spec_cache_after_pages(cache, hashes, i), i, hashes[i])
            == ExportCache::spec_hit(cache, i, hashes[i]),
        ExportCache::spec_after(spec_cache_after_pages(cache, hashes, i), i, hashes[i])
            =~= spec_cache_after_pages(cache, hashes, i + 1),
{
    let c = spec_cache_after_pages(cache, hashes, i);
    if i < cache.len() {
        assert(c.len() == cache.len());
        assert(c[i] == cache.skip(i)[0]);
        assert(cache.skip(i)[0] == cache[i]);
    } else {
        assert(c.len() == i);
    }
}

/// A page index is among the changed indices exactly when its fresh hash
/// missed the cache the compile started from.
pub proof fn lemma_changed_upto_contains(cache: Seq<u64>, hashes: Seq<u64>, n: int, i: int)
    requires
        0 <= i < n <= hashes.len(),
        n <= usize::MAX,
    ensures
        spec_changed_upto(cache, hashes, n).contains(i as usize) <==> !ExportCache::spec_hit(
            cache,
            i,
            hashes[i],
        ),
    decreases n,
{
    let whole = spec_changed_upto(cache, hashes, n);
    let pre = spec_changed_upto(cache, hashes, n - 1);
    let miss_last = !ExportCache::spec_hit(cache, n - 1, hashes[n - 1]);
    if !miss_last {
        assert(whole =~= pre);
    }
    if i == n - 1 {
        if miss_last {
            assert(whole[whole.len() - 1] == i as usize);
            assert(whole.contains(i as usize));
        } else {
            lemma_changed_bounds(cache, hashes, n - 1);
            if whole.contains(i as usize) {
                let k = choose|k: int| 0 <= k < whole.len() && whole[k] == i as usize;
                assert(pre[k] == i as usize);
                assert(pre[k] < n - 1);
                assert(false);
            }
        }
    } else {
        lemma_changed_upto_contains(cache, hashes, n - 1, i);
        if pre.contains(i as usize) {
            let k = choose|k: int| 0 <= k < pre.len() && pre[k] == i as usize;
            assert(whole[k] == i as usize);
            assert(whole.contains(i as usize));
        }
        if whole.contains(i as usize) {
            let k = choose|k: int| 0 <= k < whole.len() && whole[k] == i as usize;
            if k < pre.len() {
                assert(pre[k] == i as usize);
                assert(pre.contains(i as usize));
            } else {
                assert(miss_last);
                assert(whole[k] == (n - 1) as usize);
                assert(i == n - 1);
                assert(false);
            }
        }
    }
}

/// Every changed index among the first `n` pages is below `n`.
pub proof fn lemma_changed_bounds(cache: Seq<u64>, hashes: Seq<u64>, n: int)
    requires
        n <= usize::MAX,
    ensures
        forall|k: int|
            0 <= k < spec_changed_upto(cache, hashes, n).len() ==> spec_changed_upto(
                cache,
                hashes,
                n,
            )[k] < n,
    decreases n,
{
    if n > 0 {
        lemma_changed_bounds(cache, hashes, n - 1);
        let pre = spec_changed_upto(cache, hashes, n - 1);
        let whole = spec_changed_upto(cache, hashes, n);
        assert forall|k: int| 0 <= k < whole.len() implies whole[k] < n by {
            if k < pre.len() {
                assert(whole[k] == pre[k]);
            } else {
                assert(whole[k] == (n - 1) as usize);
            }
        }
    }
}

/// Engine state: core resources, at most one live environment, and the last
/// successfully compiled document.
pub struct TypstEngine {
    core: TypstCore,
    world: Option<NoleWorld>,
    document: Option<Document>,
}

impl TypstEngine {
    pub closed spec fn spec_core(&self) -> TypstCore {
        self.core
    }

    pub closed spec fn spec_world(&self) -> Option<NoleWorld> {
        self.world
    }

    pub closed spec fn spec_document(&self) -> Option<Document> {
        self.document
    }

    /// Internal well-formedness: a live environment is well-formed.
    pub closed spec fn wf(&self) -> bool {
        match self.world {
            Some(w) => w.wf(),
            None => true,
        }
    }

    /// Whether serving a compile for `path` must replace the environment:
    /// none is live, or the live one was opened for a different main path.
    pub open spec fn spec_needs_new_world(&self, path: Seq<u8>) -> bool {
        match self.spec_world() {
            None => true,
            Some(w) => w.spec_input() != path,
        }
    }

    /// A fresh engine with an empty font catalog and neither environment
    /// nor document.
    pub fn new() -> (e: TypstEngine)
        ensures
            e.wf(),
            e.spec_world() is None,
            e.spec_document() is None,
            e.spec_core().spec_fonts() =~= Seq::<crate::fonts::FontSlot>::empty(),
    {
        TypstEngine { core: TypstCore::new(), world: None, document: None }
    }

    /// A fresh engine around already built core resources.
    pub fn with_core(core: TypstCore) -> (e: TypstEngine)
        ensures
            e.wf(),
            e.spec_world() is None,
            e.spec_document() is None,
            e.spec_core() == core,
    {
        TypstEngine { core, world: None, document: None }
    }

    /// The core resources, shared read-only.
    pub fn resources(&self) -> (r: &TypstCore)
        ensures
            r == self.spec_core(),
    {
        &self.core
    }

    /// The core resources, for first-touch font resolution.
    pub fn resources_mut(&mut self) -> (r: &mut TypstCore)
        ensures
            *r == old(self).spec_core(),
            final(self).spec_core() == *final(r),
            final(self).spec_world() == old(self).spec_world(),
            final(self).spec_document() == old(self).spec_document(),
    {
        &mut self.core
    }

    /// Readies the environment for a compile of `text` as the document at
    /// `path` under `workspace`, and reports whether the environment was
    /// replaced.
    ///
    /// A live environment opened for the same main path is kept — its
    /// caches and export cache persist — and only its main overlay is
    /// updated. Otherwise a fresh environment is built, discarding the old
    /// one with all its caches; a path that does not resolve leaves the
    /// engine unchanged and returns the resolution error.
    pub fn prepare_compile(&mut self, workspace: Vec<u8>, path: Vec<u8>, text: Vec<u8>) -> (r:
        Result<bool, NoleError>)
        requires
            old(self).wf(),
        ensures
            final(self).wf(),
            final(self).spec_document() == old(self).spec_document(),
            final(self).spec_core() == old(self).spec_core(),
            match r {
                Ok(fresh) => {
                    &&& fresh == old(self).spec_needs_new_world(path@)
                    &&& final(self).spec_world() is Some
                    &&& {
                        let w = final(self).spec_world().unwrap();
                        if fresh {
                            &&& w.spec_workspace() == workspace@
                            &&& w.spec_input() == path@
                            &&& spec_resolve(workspace@, path@) == Ok::<Seq<u8>, NoleError>(
                                w.spec_main(),
                            )
                            &&& w.spec_overlay() =~= Map::<Seq<u8>, Seq<u8>>::empty().insert(
                                w.spec_main(),
                                text@,
                            )
                            &&& w.spec_sources() =~= Map::<Seq<u8>, Seq<u8>>::empty()
                            &&& w.spec_resources() =~= Map::<Seq<u8>, Seq<u8>>::empty()
                            &&& w.spec_export() =~= Seq::<u64>::empty()
                        } else {
                            let o = old(self).spec_world().unwrap();
                            &&& w.spec_workspace() == o.spec_workspace()
                            &&& w.spec_input() == o.spec_input()
                            &&& w.spec_main() == o.spec_main()
                            &&& w.spec_overlay() =~= o.spec_overlay().insert(
                                o.spec_main(),
                                text@,
                            )
                            &&& w.spec_sources() =~= o.spec_sources().remove(o.spec_main())
                            &&& w.spec_resources() == o.spec_resources()
                            &&& w.spec_export() == o.spec_export()
                        }
                    }
                },
                Err(e) => {
                    &&& *final(self) == *old(self)
                    &&& old(self).spec_needs_new_world(path@)
                    &&& spec_resolve(workspace@, path@) == Err::<Seq<u8>, NoleError>(e)
                },
            },
    {
        let needs_new = match &self.world {
            None => true,
            Some(w) => {
                let same = *w.input() == path;
                proof {
                    if same {
                        assert(w.spec_input() =~= path@);
                    }
                }
                !same
            },
        };
        if needs_new {
            match NoleWorld::new(workspace, path) {
                Ok(w) => {
                    self.world = Some(w);
                },
                Err(e) => {
                    return Err(e);
                },
            }
        }
        let mut w = match self.world.take() {
            Some(w) => w,
            None => vstd::pervasive::unreached(),
        };
        w.overlay_main(text);
        self.world = Some(w);
        Ok(needs_new)
    }

    /// Finishes a successful compile: records every fresh page hash in the
    /// export cache in page order, collects the indices of the pages whose
    /// hash missed — the pages the front end must fetch anew — and replaces
    /// the stored document with the new pages.
    pub fn finish_compile(&mut self, pages: Vec<Page>) -> (r: TypstCompileResponse)
        requires
            old(self).wf(),
            old(self).spec_world() is Some,
            pages@.len() > 0,
        ensures
            final(self).wf(),
            final(self).spec_core() == old(self).spec_core(),
            final(self).spec_document() is Some,
            final(self).spec_document().unwrap().pages@ == pages@,
            final(self).spec_world() is Some,
            ({
                let o = old(self).spec_world().unwrap();
                let w = final(self).spec_world().unwrap();
                &&& w.spec_workspace() == o.spec_workspace()
                &&& w.spec_input() == o.spec_input()
                &&& w.spec_main() == o.spec_main()
                &&& w.spec_overlay() == o.spec_overlay()
                &&& w.spec_sources() == o.spec_sources()
                &&& w.spec_resources() == o.spec_resources()
                &&& w.spec_export() =~= spec_cache_after_pages(
                    o.spec_export(),
                    spec_hashes(pages@),
                    pages@.len() as int,
                )
            }),
            r.updated_idx@ == spec_changed_upto(
                old(self).spec_world().unwrap().spec_export(),
                spec_hashes(pages@),
                pages@.len() as int,
            ),
            r.n_pages == pages@.len(),
            r.width == pages@[0].width,
            r.height == pages@[0].height,
    {
        let ghost old_export = self.spec_world().unwrap().spec_export();
        let ghost hashes = spec_hashes(pages@);
        let mut w = match self.world.take() {
            Some(w) => w,
            None => vstd::pervasive::unreached(),
        };
        let n = pages.len();
        let mut updated_idx: Vec<usize> = Vec::new();
        let mut i: usize = 0;
        proof {
            assert(spec_cache_after_pages(old_export, hashes, 0) =~= old_export);
        }
        while i < n
            invariant
                0 <= i <= n == pages@.len(),
                hashes == spec_hashes(pages@),
                w.wf(),
                w.spec_export() =~= spec_cache_after_pages(old_export, hashes, i as int),
                updated_idx@ == spec_changed_upto(old_export, hashes, i as int),
                w.spec_workspace() == old(self).spec_world().unwrap().spec_workspace(),
                w.spec_input() == old(self).spec_world().unwrap().spec_input(),
                w.spec_main() == old(self).spec_world().unwrap().spec_main(),
                w.spec_overlay() == old(self).spec_world().unwrap().spec_overlay(),
                w.spec_sources() == old(self).spec_world().unwrap().spec_sources(),
                w.spec_resources() == old(self).spec_world().unwrap().spec_resources(),
                old_export == old(self).spec_world().unwrap().spec_export(),
            decreases n - i,
        {
            let hash = pages[i].frame_hash;
            proof {
                assert(hashes[i as int] == hash);
                lemma_cache_step(old_export, hashes, i as int);
            }
            let hit = w.is_cached(i, hash);
            if !hit {
                updated_idx.push(i);
                proof {
                    assert(updated_idx@ =~= spec_changed_upto(old_export, hashes, i + 1));
                }
            } else {
                proof {
                    assert(updated_idx@ =~= spec_changed_upto(old_export, hashes, i + 1));
                }
            }
            i = i + 1;
        }
        self.world = Some(w);
        let width = pages[0].width;
        let height = pages[0].height;
        self.document = Some(Document { pages });
        TypstCompileResponse { updated_idx, n_pages: n, width, height }
    }

    /// The page to render, read from the last successfully compiled
    /// document: `NotReady` when no document exists or the index is out of
    /// range. Independent of the export cache.
    pub fn page_for_render(&self, page: usize) -> (r: Result<Page, NoleError>)
        ensures
            match r {
                Ok(p) => {
                    &&& self.spec_document() is Some
                    &&& page < self.spec_document().unwrap().pages@.len()
                    &&& p == self.spec_document().unwrap().pages@[page as int]
                },
                Err(e) => {
                    &&& e == NoleError::NotReady
                    &&& (self.spec_document() is None || page
                        >= self.spec_document().unwrap().pages@.len())
                },
            },
    {
        match &self.document {
            None => Err(NoleError::NotReady),
            Some(doc) => {
                if page < doc.pages.len() {
                    Ok(doc.pages[page])
                } else {
                    Err(NoleError::NotReady)
                }
            },
        }
    }

    /// Number of pages of the stored document; `NotReady` when none exists.
    /// An export serializes exactly these pages.
    pub fn pages_for_export(&self) -> (r: Result<usize, NoleError>)
        ensures
            match r {
                Ok(n) => self.spec_document() is Some && n == self.spec_document().unwrap().pages@.len(),
                Err(e) => e == NoleError::NotReady && self.spec_document() is None,
            },
    {
        match &self.document {
            None => Err(NoleError::NotReady),
            Some(doc) => Ok(doc.pages.len()),
        }
    }

    /// Resets the live environment for session reinitialization: its source
    /// and resource caches and its export cache are cleared — forcing every
    /// page to count as changed on the next compile — while the overlay and
    /// the stored document survive. Without a live environment it does
    /// nothing.
    pub fn reset(&mut self)
        requires
            old(self).wf(),
        ensures
            final(self).wf(),
            final(self).spec_core() == old(self).spec_core(),
            final(self).spec_document() == old(self).spec_document(),
            old(self).spec_world() is None ==> *final(self) == *old(self),
            old(self).spec_world() is Some ==> {
                let o = old(self).spec_world().unwrap();
                let w = final(self).spec_world().unwrap();
                &&& final(self).spec_world() is Some
                &&& w.spec_workspace() == o.spec_workspace()
                &&& w.spec_input() == o.spec_input()
                &&& w.spec_main() == o.spec_main()
                &&& w.spec_overlay() == o.spec_overlay()
                &&& w.spec_sources() =~= Map::<Seq<u8>, Seq<u8>>::empty()
                &&& w.spec_resources() =~= Map::<Seq<u8>, Seq<u8>>::empty()
                &&& w.spec_export() =~= Seq::<u64>::empty()
            },
    {
        match self.world.take() {
            None => {
            },
            Some(mut w) => {
                w.reset();
                self.world = Some(w);
            },
        }
    }

    /// Readies the environment for an autocomplete pass over `text`: the
    /// overlay step of a compile, without a compile. Unlike a compile this
    /// never builds an environment: without a live one it fails `NotReady`.
    pub fn prepare_autocomplete(&mut self, text: Vec<u8>) -> (r: Result<(), NoleError>)
        requires
            old(self).wf(),
        ensures
            final(self).wf(),
            final(self).spec_core() == old(self).spec_core(),
            final(self).spec_document() == old(self).spec_document(),
            match r {
                Ok(_) => {
                    &&& old(self).spec_world() is Some
                    &&& final(self).spec_world() is Some
                    &&& {
                        let o = old(self).spec_world().unwrap();
                        let w = final(self).spec_world().unwrap();
                        &&& w.spec_workspace() == o.spec_workspace()
                        &&& w.spec_input() == o.spec_input()
                        &&& w.spec_main() == o.spec_main()
                        &&& w.spec_overlay() =~= o.spec_overlay().insert(o.spec_main(), text@)
                        &&& w.spec_sources() =~= o.spec_sources().remove(o.spec_main())
                        &&& w.spec_resources() == o.spec_resources()
                        &&& w.spec_export() == o.spec_export()
                    }
                },
                Err(e) => e == NoleError::NotReady && old(self).spec_world() is None
                    && *final(self) == *old(self),
            },
    {
        match self.world.take() {
            None => Err(NoleError::NotReady),
            Some(mut w) => {
                w.overlay_main(text);
                self.world = Some(w);
                Ok(())
            },
        }
    }

    /// The live environment, for source and resource queries during a
    /// compilation pass.
    pub fn world_mut(&mut self) -> (r: Option<&mut NoleWorld>)
        requires
            old(self).wf(),
        ensures
            final(self).spec_core() == old(self).spec_core(),
            final(self).spec_document() == old(self).spec_document(),
            match r {
                Some(w) => old(self).spec_world() is Some && *w == old(
                    self,
                ).spec_world().unwrap() && final(self).spec_world() == Some(*final(w)),
                None => old(self).spec_world() is None && *final(self) == *old(self),
            },
    {
        self.world.as_mut()
    }
}

} // verus!
