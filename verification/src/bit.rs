use vstd::prelude::*;

verus! {

/// One module of the symbol grid: its colour, and whether a function pattern
/// has fixed that colour for good.
#[derive(Debug, Clone, Copy, PartialEq, Eq, Structural)]
pub struct Bit {
    /// Whether the module is dark.
    pub on: bool,
    /// Whether the module is fixed: nothing that is laid over it later
    /// changes it.
    pub reserved: bool,
}

impl Bit {
    /// A module that nothing has been written to yet.
    pub open spec fn free() -> Bit {
        Bit { on: false, reserved: false }
    }

    /// What a destination module becomes when `source` is laid over it. A
    /// reserved destination stays as it is. A free one takes the exclusive or
    /// of the two colours, and is reserved from then on if the source is.
    pub open spec fn merged(self, source: Bit) -> Bit {
        if self.reserved {
            self
        } else {
            Bit { on: self.on != source.on, reserved: source.reserved }
        }
    }

    /// Lays `source` over `destination` and returns the resulting module.
    pub fn combine(destination: Bit, source: Bit) -> (result: Bit)
        ensures
            result == destination.merged(source),
    {
        Bit {
            on: if destination.reserved {
                destination.on
            } else {
                destination.on ^ source.on
            },
            reserved: destination.reserved || source.reserved,
        }
    }

    /// A reserved module is immune to whatever is laid over it.
    pub proof fn lemma_reserved_is_kept(self, source: Bit)
        requires
            self.reserved,
        ensures
            self.merged(source) == self,
    {
    }

    /// Laying a module over a free one yields exactly the module laid on.
    pub proof fn lemma_free_is_stamped(source: Bit)
        ensures
            Bit::free().merged(source) == source,
    {
    }

    /// Once a module is reserved, no sequence of further overlays changes it:
    /// two overlays in a row leave it as the first one did.
    pub proof fn lemma_merge_is_idempotent_once_reserved(self, first: Bit, second: Bit)
        requires
            self.merged(first).reserved,
        ensures
            self.merged(first).merged(second) == self.merged(first),
    {
    }

    /// A merge never lifts a reservation.
    pub proof fn lemma_merge_keeps_reservation(self, source: Bit)
        ensures
            self.reserved ==> self.merged(source).reserved,
            source.reserved ==> self.merged(source).reserved,
    {
    }
}

impl std::ops::AddAssign for Bit {
    /// `destination += source` lays `source` over `destination` in place.
    fn add_assign(&mut self, other: Bit)
        ensures
            *final(self) == old(self).merged(other),
    {
        *self = Bit {
            on: if self.reserved {
                self.on
            } else {
                self.on ^ other.on
            },
            reserved: self.reserved || other.reserved,
        };
    }
}

} // verus!
