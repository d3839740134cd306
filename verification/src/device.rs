//! What the bus asks of a memory-mapped device.

use vstd::prelude::*;
use crate::memory::Window;

verus! {

/// A peripheral that owns a range of addresses. The bus asks for the range
/// once, at registration, and from then on runs one of two hooks around
/// every access that falls into it. A hook gets no address: it works on the
/// window over the device's own bytes.
///
/// Each hook comes with a relation that says what the hook may do, and the
/// contracts of the bus are stated over these relations. A device that does
/// not state a relation keeps the one given here, which allows everything:
/// of such a device the bus knows only that it stays inside its window.
/// `range` has no such fallback: it is what `mapping_def` returns.
pub trait Device: Sized {
    /// The half-open range `[start, end)` of addresses that the device owns.
    spec fn range(&self) -> (usize, usize);

    /// Whether a device in state `self`, registered while its range holds
    /// `before`, may go on in state `next` and leave `after` in its range.
    open spec fn on_map(&self, before: Seq<u8>, next: Self, after: Seq<u8>) -> bool {
        true
    }

    /// Whether a device in state `self`, about to be read while its range
    /// holds `before`, may go on in state `next` and leave `after` in its
    /// range.
    open spec fn on_pre_read(&self, before: Seq<u8>, next: Self, after: Seq<u8>) -> bool {
        true
    }

    /// Whether a device in state `self`, written to so that its range now
    /// holds `before`, may go on in state `next` and leave `after` in its
    /// range.
    open spec fn on_post_write(&self, before: Seq<u8>, next: Self, after: Seq<u8>) -> bool {
        true
    }

    /// The range that the device owns. It never changes.
    fn mapping_def(&self) -> (r: (usize, usize))
        ensures
            r == self.range(),
    ;

    /// Registration: the device is handed the window over its range, and
    /// may rewrite the bytes of its range.
    fn map(&mut self, window: &mut Window)
        requires
            old(window).in_bounds(),
            old(window).start() == old(self).range().0,
            old(window).end() == old(self).range().1,
        ensures
            old(self).on_map(old(window)@, *final(self), final(window)@),
            old(window).same_frame(*final(window)),
            final(self).range() == old(self).range(),
    ;

    /// Runs before the bus fetches a byte of the device's range for a
    /// reader. The device may rewrite the bytes of its range.
    fn pre_read_hook(&mut self, window: &mut Window)
        requires
            old(window).in_bounds(),
            old(window).start() == old(self).range().0,
            old(window).end() == old(self).range().1,
        ensures
            old(self).on_pre_read(old(window)@, *final(self), final(window)@),
            old(window).same_frame(*final(window)),
            final(self).range() == old(self).range(),
    ;

    /// Runs after the bus has stored a byte into the device's range. The
    /// device sees the stored byte through the window and may rewrite the
    /// bytes of its range.
    fn post_write_hook(&mut self, window: &mut Window)
        requires
            old(window).in_bounds(),
            old(window).start() == old(self).range().0,
            old(window).end() == old(self).range().1,
        ensures
            old(self).on_post_write(old(window)@, *final(self), final(window)@),
            old(window).same_frame(*final(window)),
            final(self).range() == old(self).range(),
    ;
}

} // verus!
