//! Shared core resources: the lazily loaded font catalog.
//!
//! The catalog is built once at process start from the locators that font
//! discovery produced, and is then shared read-only by every environment.
//! Font bytes are loaded on first use: a slot is resolved at most once, a
//! successful load is cached, and a failed load marks the slot permanently
//! unavailable without disturbing the rest of the catalog. The standard
//! library definitions and the font metrics book are opaque to this model
//! and live with the compilation pipeline.

use vstd::prelude::*;

verus! {

/// One slot of the font catalog.
pub enum FontSlot {
    /// Not yet loaded; holds the locator (path bytes) of the font file.
    Unresolved(Vec<u8>),
    /// Loaded and cached; holds the font bytes.
    Resolved(Vec<u8>),
    /// A load failed once; the slot stays unavailable.
    Unavailable,
}

/// The slot after a load attempt delivered `bytes` (`None`: the load
/// failed). Only an unresolved slot changes; a resolved or unavailable slot
/// is already settled and keeps its state.
pub open spec fn spec_slot_after_load(slot: FontSlot, bytes: Option<Vec<u8>>) -> FontSlot {
    match slot {
        FontSlot::Unresolved(_) => match bytes {
            Some(b) => FontSlot::Resolved(b),
            None => FontSlot::Unavailable,
        },
        _ => slot,
    }
}

/// Process-lifetime core resources: the font catalog.
pub struct TypstCore {
    fonts: Vec<FontSlot>,
}

impl TypstCore {
    pub closed spec fn spec_fonts(&self) -> Seq<FontSlot> {
        self.fonts@
    }

    /// An empty catalog; discovery installs the real slots via
    /// `with_fonts`.
    pub fn new() -> (c: TypstCore)
        ensures
            c.spec_fonts() =~= Seq::<FontSlot>::empty(),
    {
        TypstCore { fonts: Vec::new() }
    }

    /// The catalog of the discovered font files, every slot unresolved.
    pub fn with_fonts(locators: Vec<Vec<u8>>) -> (c: TypstCore)
        ensures
            c.spec_fonts().len() == locators@.len(),
            forall|i: int|
                0 <= i < locators@.len() ==> c.spec_fonts()[i] == FontSlot::Unresolved(
                    locators@[i],
                ),
    {
        let n = locators.len();
        let mut fonts: Vec<FontSlot> = Vec::new();
        let mut locators = locators;
        let mut i: usize = 0;
        let ghost locs = locators@;
        while i < n
            invariant
                0 <= i <= n == locs.len(),
                locators@ =~= locs.skip(i as int),
                fonts@.len() == i,
                forall|j: int| 0 <= j < i ==> fonts@[j] == FontSlot::Unresolved(locs[j]),
            decreases n - i,
        {
            let loc = locators.remove(0);
            proof {
                assert(loc == locs[i as int]);
                assert(locators@ =~= locs.skip(i + 1));
            }
            fonts.push(FontSlot::Unresolved(loc));
            i = i + 1;
        }
        TypstCore { fonts }
    }

    /// Number of slots in the catalog.
    pub fn font_count(&self) -> (n: usize)
        ensures
            n == self.spec_fonts().len(),
    {
        self.fonts.len()
    }

    /// Whether the slot at `index` still awaits its first load.
    pub fn font_needs_load(&self, index: usize) -> (r: bool)
        requires
            index < self.spec_fonts().len(),
        ensures
            r == (self.spec_fonts()[index as int] is Unresolved),
    {
        match &self.fonts[index] {
            FontSlot::Unresolved(_) => true,
            _ => false,
        }
    }

    /// The locator of an unresolved slot.
    pub fn font_locator(&self, index: usize) -> (r: Option<&Vec<u8>>)
        requires
            index < self.spec_fonts().len(),
        ensures
            match r {
                Some(loc) => self.spec_fonts()[index as int] == FontSlot::Unresolved(*loc),
                None => !(self.spec_fonts()[index as int] is Unresolved),
            },
    {
        match &self.fonts[index] {
            FontSlot::Unresolved(loc) => Some(loc),
            _ => None,
        }
    }

    /// The cached bytes of a resolved slot.
    pub fn font(&self, index: usize) -> (r: Option<&Vec<u8>>)
        requires
            index < self.spec_fonts().len(),
        ensures
            match r {
                Some(bytes) => self.spec_fonts()[index as int] == FontSlot::Resolved(*bytes),
                None => !(self.spec_fonts()[index as int] is Resolved),
            },
    {
        match &self.fonts[index] {
            FontSlot::Resolved(bytes) => Some(bytes),
            _ => None,
        }
    }

    /// Settles the slot at `index` with the outcome of a load attempt:
    /// an unresolved slot becomes resolved with the bytes, or permanently
    /// unavailable on a failed load; a slot already settled is untouched, so
    /// resolution happens at most once. No other slot is disturbed.
    pub fn store_font(&mut self, index: usize, bytes: Option<Vec<u8>>)
        requires
            index < old(self).spec_fonts().len(),
        ensures
            final(self).spec_fonts().len() == old(self).spec_fonts().len(),
            final(self).spec_fonts()[index as int] == spec_slot_after_load(
                old(self).spec_fonts()[index as int],
                bytes,
            ),
            forall|j: int|
                0 <= j < old(self).spec_fonts().len() && j != index
                    ==> final(self).spec_fonts()[j] == old(self).spec_fonts()[j],
    {
        let settled = match &self.fonts[index] {
            FontSlot::Unresolved(_) => false,
            _ => true,
        };
        if settled {
            return ;
        }
        match bytes {
            Some(b) => {
                self.fonts.set(index, FontSlot::Resolved(b));
            },
            None => {
                self.fonts.set(index, FontSlot::Unavailable);
            },
        }
    }

    /// Resolution happens at most once: a second load outcome, whatever it
    /// is, does not change a slot that a first outcome settled.
    pub proof fn lemma_font_resolved_at_most_once(
        slot: FontSlot,
        first: Option<Vec<u8>>,
        second: Option<Vec<u8>>,
    )
        ensures
            spec_slot_after_load(spec_slot_after_load(slot, first), second)
                == spec_slot_after_load(slot, first),
    {
    }
}

} // verus!
