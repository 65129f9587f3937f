//! The compilation environment: the compiler's only channel to the outside
//! world for one open document.
//!
//! It resolves identifiers against the workspace root, keeps the in-memory
//! overlay that shadows on-disk content for edited files, caches source and
//! resource content so that repeated queries within one compilation pass are
//! cheap and observe a stable answer, and owns the per-page export cache.
//!
//! The environment itself never touches the disk: a caller that holds the
//! disk content (or failed to read it) passes it in, and the contract says
//! which content — cache, overlay or disk — answers the query.

use vstd::prelude::*;
use crate::NoleError;
use crate::bytemap::ByteMap;
use crate::export_cache::ExportCache;
use crate::ident::{Identifier, resolve_identifier, spec_resolve};

verus! {

/// Per-document compilation environment.
///
/// Exactly one is live at a time; the engine replaces it wholesale when the
/// requested main path changes.
pub struct NoleWorld {
    workspace: Vec<u8>,
    input: Vec<u8>,
    main: Identifier,
    overlay: ByteMap,
    sources: ByteMap,
    resources: ByteMap,
    export: ExportCache,
}

/// Content that answers a source query, given the environment's state and
/// what a disk read would return right now: the cached parse if present,
/// else the overlay, else the disk.
pub open spec fn spec_source_result(
    sources: Map<Seq<u8>, Seq<u8>>,
    overlay: Map<Seq<u8>, Seq<u8>>,
    id: Seq<u8>,
    disk: Option<Seq<u8>>,
) -> Result<Seq<u8>, NoleError> {
    if sources.contains_key(id) {
        Ok(sources[id])
    } else if overlay.contains_key(id) {
        Ok(overlay[id])
    } else {
        match disk {
            Some(d) => Ok(d),
            None => Err(NoleError::ReadError),
        }
    }
}

/// Content that answers a binary resource query: the cached bytes if
/// present, else the disk. Resources cannot be overlaid.
pub open spec fn spec_binary_result(
    resources: Map<Seq<u8>, Seq<u8>>,
    id: Seq<u8>,
    disk: Option<Seq<u8>>,
) -> Result<Seq<u8>, NoleError> {
    if resources.contains_key(id) {
        Ok(resources[id])
    } else {
        match disk {
            Some(d) => Ok(d),
            None => Err(NoleError::ReadError),
        }
    }
}

impl NoleWorld {
    /// Internal well-formedness: the caches are well-formed maps and the
    /// main identifier is what the workspace root and input path resolve to.
    pub closed spec fn wf(&self) -> bool {
        &&& self.overlay.wf()
        &&& self.sources.wf()
        &&& self.resources.wf()
        &&& spec_resolve(self.workspace@, self.input@) == Ok::<Seq<u8>, NoleError>(self.main@)
    }

    pub closed spec fn spec_workspace(&self) -> Seq<u8> {
        self.workspace@
    }

    /// The main path as the front end supplied it.
    pub closed spec fn spec_input(&self) -> Seq<u8> {
        self.input@
    }

    /// The canonical path of the main identifier.
    pub closed spec fn spec_main(&self) -> Seq<u8> {
        self.main@
    }

    pub closed spec fn spec_overlay(&self) -> Map<Seq<u8>, Seq<u8>> {
        self.overlay@
    }

    pub closed spec fn spec_sources(&self) -> Map<Seq<u8>, Seq<u8>> {
        self.sources@
    }

    pub closed spec fn spec_resources(&self) -> Map<Seq<u8>, Seq<u8>> {
        self.resources@
    }

    pub closed spec fn spec_export(&self) -> Seq<u64> {
        self.export@
    }

    /// Builds a fresh environment for `input` under `workspace`: empty
    /// overlay, empty caches, empty export cache, main identifier resolved
    /// from the input path.
    pub fn new(workspace: Vec<u8>, input: Vec<u8>) -> (r: Result<NoleWorld, NoleError>)
        ensures
            match r {
                Ok(w) => {
                    &&& w.wf()
                    &&& w.spec_workspace() == workspace@
                    &&& w.spec_input() == input@
                    &&& spec_resolve(workspace@, input@) == Ok::<Seq<u8>, NoleError>(w.spec_main())
                    &&& w.spec_overlay() =~= Map::<Seq<u8>, Seq<u8>>::empty()
                    &&& w.spec_sources() =~= Map::<Seq<u8>, Seq<u8>>::empty()
                    &&& w.spec_resources() =~= Map::<Seq<u8>, Seq<u8>>::empty()
                    &&& w.spec_export() =~= Seq::<u64>::empty()
                },
                Err(e) => spec_resolve(workspace@, input@) == Err::<Seq<u8>, NoleError>(e),
            },
    {
        let main = match resolve_identifier(&workspace, &input) {
            Ok(id) => id,
            Err(e) => {
                return Err(e);
            },
        };
        Ok(
            NoleWorld {
                workspace,
                input,
                main,
                overlay: ByteMap::new(),
                sources: ByteMap::new(),
                resources: ByteMap::new(),
                export: ExportCache::new(),
            },
        )
    }

    /// The main identifier, fixed at construction.
    pub fn main(&self) -> (r: &Identifier)
        ensures
            r@ == self.spec_main(),
    {
        &self.main
    }

    /// The main path as supplied at construction; the engine compares it
    /// against the next requested path.
    pub fn input(&self) -> (r: &Vec<u8>)
        ensures
            r@ == self.spec_input(),
    {
        &self.input
    }

    /// Resolves a path against this environment's workspace root.
    pub fn resolve(&self, path: &Vec<u8>) -> (r: Result<Identifier, NoleError>)
        ensures
            match r {
                Ok(id) => spec_resolve(self.spec_workspace(), path@) == Ok::<
                    Seq<u8>,
                    NoleError,
                >(id@),
                Err(e) => spec_resolve(self.spec_workspace(), path@) == Err::<
                    Seq<u8>,
                    NoleError,
                >(e),
            },
    {
        resolve_identifier(&self.workspace, path)
    }

    /// Installs or replaces the authoritative in-memory content for `id` and
    /// invalidates any cached parse for it; everything else is untouched.
    pub fn virtual_source(&mut self, id: &Identifier, text: Vec<u8>)
        requires
            old(self).wf(),
        ensures
            final(self).wf(),
            final(self).spec_overlay() =~= old(self).spec_overlay().insert(id@, text@),
            final(self).spec_sources() =~= old(self).spec_sources().remove(id@),
            final(self).spec_resources() == old(self).spec_resources(),
            final(self).spec_export() == old(self).spec_export(),
            final(self).spec_workspace() == old(self).spec_workspace(),
            final(self).spec_input() == old(self).spec_input(),
            final(self).spec_main() == old(self).spec_main(),
    {
        let key = crate::ident::Identifier::as_bytes(id);
        let key_copy = vstd::slice::slice_to_vec(key.as_slice());
        self.sources.remove(&key_copy);
        self.overlay.insert(key_copy, text);
    }

    /// Installs or replaces the in-memory content of the main document and
    /// invalidates its cached parse, as `virtual_source` does for the main
    /// identifier.
    pub fn overlay_main(&mut self, text: Vec<u8>)
        requires
            old(self).wf(),
        ensures
            final(self).wf(),
            final(self).spec_overlay() =~= old(self).spec_overlay().insert(
                old(self).spec_main(),
                text@,
            ),
            final(self).spec_sources() =~= old(self).spec_sources().remove(old(self).spec_main()),
            final(self).spec_resources() == old(self).spec_resources(),
            final(self).spec_export() == old(self).spec_export(),
            final(self).spec_workspace() == old(self).spec_workspace(),
            final(self).spec_input() == old(self).spec_input(),
            final(self).spec_main() == old(self).spec_main(),
    {
        let key = vstd::slice::slice_to_vec(self.main.as_bytes().as_slice());
        self.sources.remove(&key);
        self.overlay.insert(key, text);
    }

    /// Whether a source query for `id` would have to read the disk: no
    /// cached parse and no overlay content.
    pub fn source_needs_disk(&self, id: &Identifier) -> (r: bool)
        requires
            self.wf(),
        ensures
            r == (!self.spec_sources().contains_key(id@) && !self.spec_overlay().contains_key(
                id@,
            )),
    {
        let key = id.as_bytes();
        !self.sources.contains(key) && !self.overlay.contains(key)
    }

    /// Returns the source content for `id`: the cached parse if present and
    /// not invalidated, else the overlay if set, else `disk` — the content a
    /// disk read returned just now (`None` for a failed read). On a cache
    /// miss the answer is cached; on a hit nothing changes, so the answer is
    /// stable and the disk is not consulted.
    pub fn source(&mut self, id: &Identifier, disk: Option<&Vec<u8>>) -> (r: Result<
        Vec<u8>,
        NoleError,
    >)
        requires
            old(self).wf(),
        ensures
            final(self).wf(),
            match r {
                Ok(text) => spec_source_result(
                    old(self).spec_sources(),
                    old(self).spec_overlay(),
                    id@,
                    match disk {
                        Some(d) => Some(d@),
                        None => None,
                    },
                ) == Ok::<Seq<u8>, NoleError>(text@) && final(self).spec_sources()
                    =~= old(self).spec_sources().insert(id@, text@),
                Err(e) => spec_source_result(
                    old(self).spec_sources(),
                    old(self).spec_overlay(),
                    id@,
                    match disk {
                        Some(d) => Some(d@),
                        None => None,
                    },
                ) == Err::<Seq<u8>, NoleError>(e) && final(self).spec_sources() == old(
                    self,
                ).spec_sources(),
            },
            old(self).spec_sources().contains_key(id@) ==> *final(self) == *old(self),
            final(self).spec_overlay() == old(self).spec_overlay(),
            final(self).spec_resources() == old(self).spec_resources(),
            final(self).spec_export() == old(self).spec_export(),
            final(self).spec_workspace() == old(self).spec_workspace(),
            final(self).spec_input() == old(self).spec_input(),
            final(self).spec_main() == old(self).spec_main(),
    {
        let key = id.as_bytes();
        if let Some(cached) = self.sources.get(key) {
            let text = vstd::slice::slice_to_vec(cached.as_slice());
            proof {
                assert(old(self).spec_sources().insert(id@, text@) =~= old(self).spec_sources());
            }
            return Ok(text);
        }
        let content: Vec<u8> = if let Some(over) = self.overlay.get(key) {
            vstd::slice::slice_to_vec(over.as_slice())
        } else {
            match disk {
                Some(d) => vstd::slice::slice_to_vec(d.as_slice()),
                None => {
                    return Err(NoleError::ReadError);
                },
            }
        };
        let key_copy = vstd::slice::slice_to_vec(key.as_slice());
        let text = vstd::slice::slice_to_vec(content.as_slice());
        self.sources.insert(key_copy, content);
        Ok(text)
    }

    /// Returns the binary resource content for `id`: the cached bytes if
    /// present, else `disk` — the content a disk read returned just now
    /// (`None` for a failed read). Resources cannot be overlaid; a miss is
    /// cached for the session.
    pub fn binary(&mut self, id: &Identifier, disk: Option<&Vec<u8>>) -> (r: Result<
        Vec<u8>,
        NoleError,
    >)
        requires
            old(self).wf(),
        ensures
            final(self).wf(),
            match r {
                Ok(bytes) => spec_binary_result(
                    old(self).spec_resources(),
                    id@,
                    match disk {
                        Some(d) => Some(d@),
                        None => None,
                    },
                ) == Ok::<Seq<u8>, NoleError>(bytes@) && final(self).spec_resources()
                    =~= old(self).spec_resources().insert(id@, bytes@),
                Err(e) => spec_binary_result(
                    old(self).spec_resources(),
                    id@,
                    match disk {
                        Some(d) => Some(d@),
                        None => None,
                    },
                ) == Err::<Seq<u8>, NoleError>(e) && final(self).spec_resources() == old(
                    self,
                ).spec_resources(),
            },
            old(self).spec_resources().contains_key(id@) ==> *final(self) == *old(self),
            final(self).spec_overlay() == old(self).spec_overlay(),
            final(self).spec_sources() == old(self).spec_sources(),
            final(self).spec_export() == old(self).spec_export(),
            final(self).spec_workspace() == old(self).spec_workspace(),
            final(self).spec_input() == old(self).spec_input(),
            final(self).spec_main() == old(self).spec_main(),
    {
        let key = id.as_bytes();
        if let Some(cached) = self.resources.get(key) {
            let bytes = vstd::slice::slice_to_vec(cached.as_slice());
            proof {
                assert(old(self).spec_resources().insert(id@, bytes@) =~= old(
                    self,
                ).spec_resources());
            }
            return Ok(bytes);
        }
        match disk {
            Some(d) => {
                let key_copy = vstd::slice::slice_to_vec(key.as_slice());
                let content = vstd::slice::slice_to_vec(d.as_slice());
                let bytes = vstd::slice::slice_to_vec(content.as_slice());
                self.resources.insert(key_copy, content);
                Ok(bytes)
            },
            None => Err(NoleError::ReadError),
        }
    }

    /// Clears the source cache, the resource cache and the export cache,
    /// keeping the overlay: an edited main document survives a reset and is
    /// simply reparsed on demand. Idempotent.
    pub fn reset(&mut self)
        requires
            old(self).wf(),
        ensures
            final(self).wf(),
            final(self).spec_overlay() == old(self).spec_overlay(),
            final(self).spec_sources() =~= Map::<Seq<u8>, Seq<u8>>::empty(),
            final(self).spec_resources() =~= Map::<Seq<u8>, Seq<u8>>::empty(),
            final(self).spec_export() =~= Seq::<u64>::empty(),
            final(self).spec_workspace() == old(self).spec_workspace(),
            final(self).spec_input() == old(self).spec_input(),
            final(self).spec_main() == old(self).spec_main(),
    {
        self.sources.clear();
        self.resources.clear();
        self.export.clear();
    }

    /// Records the structural hash of the page at `index` in the export
    /// cache and reports whether the page is unchanged; see `ExportCache`.
    pub fn is_cached(&mut self, index: usize, hash: u64) -> (hit: bool)
        requires
            old(self).wf(),
        ensures
            final(self).wf(),
            hit == ExportCache::spec_hit(old(self).spec_export(), index as int, hash),
            final(self).spec_export() =~= ExportCache::spec_after(
                old(self).spec_export(),
                index as int,
                hash,
            ),
            final(self).spec_overlay() == old(self).spec_overlay(),
            final(self).spec_sources() == old(self).spec_sources(),
            final(self).spec_resources() == old(self).spec_resources(),
            final(self).spec_workspace() == old(self).spec_workspace(),
            final(self).spec_input() == old(self).spec_input(),
            final(self).spec_main() == old(self).spec_main(),
    {
        self.export.is_cached(index, hash)
    }

    /// Content never overlaid and never cached is answered by the disk, at
    /// call time.
    pub proof fn lemma_plain_source_is_disk(
        sources: Map<Seq<u8>, Seq<u8>>,
        overlay: Map<Seq<u8>, Seq<u8>>,
        id: Seq<u8>,
        disk: Seq<u8>,
    )
        requires
            !sources.contains_key(id),
            !overlay.contains_key(id),
        ensures
            spec_source_result(sources, overlay, id, Some(disk)) == Ok::<Seq<u8>, NoleError>(disk),
    {
    }

    /// Overlay content shadows the disk: with the cached parse for `id`
    /// invalidated — as `virtual_source` leaves it — a source query answers
    /// with the overlay content, whatever the disk holds.
    pub proof fn lemma_overlay_shadows_disk(
        sources: Map<Seq<u8>, Seq<u8>>,
        overlay: Map<Seq<u8>, Seq<u8>>,
        id: Seq<u8>,
        text: Seq<u8>,
        disk: Option<Seq<u8>>,
    )
        requires
            !sources.contains_key(id),
            overlay.contains_key(id),
            overlay[id] == text,
        ensures
            spec_source_result(sources, overlay, id, disk) == Ok::<Seq<u8>, NoleError>(text),
    {
    }

    /// A reset clears the caches but not the overlay: an identifier
    /// overlaid with `text` before the reset — as `reset` leaves the state,
    /// with every cache empty — is still answered with `text`, whatever the
    /// disk holds.
    pub proof fn lemma_overlay_survives_reset(
        overlay: Map<Seq<u8>, Seq<u8>>,
        id: Seq<u8>,
        text: Seq<u8>,
        disk: Option<Seq<u8>>,
    )
        requires
            overlay.contains_key(id),
            overlay[id] == text,
        ensures
            spec_source_result(Map::empty(), overlay, id, disk) == Ok::<Seq<u8>, NoleError>(text),
    {
        assert(!Map::<Seq<u8>, Seq<u8>>::empty().contains_key(id));
    }

    /// A cached source answers every later query with the same content, and
    /// without consulting the disk: the result does not depend on `disk`.
    pub proof fn lemma_cached_source_is_stable(
        sources: Map<Seq<u8>, Seq<u8>>,
        overlay: Map<Seq<u8>, Seq<u8>>,
        id: Seq<u8>,
        text: Seq<u8>,
    )
        requires
            sources.contains_key(id),
            sources[id] == text,
        ensures
            forall|disk: Option<Seq<u8>>|
                spec_source_result(sources, overlay, id, disk) == Ok::<Seq<u8>, NoleError>(text),
    {
    }
}

} // verus!
