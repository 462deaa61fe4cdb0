//! The firmware interface through which a guest tells its host about memory
//! shared for DMA.
use vstd::prelude::*;

verus! {

/// Guest-to-host notifications about DMA buffers. A board binds one
/// implementation, which performs the hypervisor call; the caller passes a
/// page-aligned region that it owns, and the interface itself checks nothing.
pub trait PsciIf {
    /// Tells the host that the region at `phys_addr` of `size` bytes is shared
    /// between guest and host for DMA.
    fn share_dma_buffer(phys_addr: usize, size: usize);

    /// Tells the host that the region at `phys_addr` of `size` bytes is no
    /// longer shared.
    fn unshare_dma_buffer(phys_addr: usize, size: usize);
}

} // verus!
