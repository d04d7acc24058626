//! Placement of guest RAM inside the module's exported linear memory.
//!
//! Guest RAM is a single contiguous region at a fixed offset, not a `Vec`. JIT
//! modules import the same linear memory and inline `guest_physical + RAM_BASE`
//! as a constant displacement, so the base must be knowable without consulting
//! a runtime allocator.
use vstd::prelude::*;

verus! {

/// Byte offset of guest physical address 0 within the wasm linear memory.
///
/// Everything below this belongs to the Rust allocator and static data;
/// [`reserve`] performs the check that turns a layout mistake into a startup
/// error rather than silent guest corruption.
pub const RAM_BASE: usize = 0x4000_0000;

/// Largest guest RAM the 32-bit address space leaves room for: 4 GiB less
/// [`RAM_BASE`].
pub const MAX_RAM_BYTES: usize = 0xC000_0000;

/// Default guest RAM.
pub const DEFAULT_RAM_BYTES: usize = 0x4000_0000;

/// Guest physical base address of RAM on the QEMU `virt` machine.
///
/// Guest physical `PHYS_RAM_BASE + n` lives at linear-memory byte
/// `RAM_BASE + n`.
pub const PHYS_RAM_BASE: u64 = 0x4000_0000;

/// Why a requested guest RAM size cannot be placed in linear memory.
#[derive(Debug, Clone, Copy, PartialEq, Eq, Structural)]
pub enum LayoutError {
    /// Requested size exceeds what the wasm32 address space leaves after
    /// [`RAM_BASE`].
    TooLarge { requested: usize, max: usize },
    /// Requested size is not a whole number of 4 KiB guest pages.
    Unaligned { requested: usize },
    /// Requested size is zero.
    Empty,
}

/// Guest page size. 4 KiB granule only.
pub const PAGE_SIZE: usize = 4096;

/// Validates a guest RAM size and reports the linear-memory range it occupies.
///
/// Returns the half-open byte range `[start, end)` within linear memory: a
/// nonzero whole number of pages, at most [`MAX_RAM_BYTES`], placed at
/// [`RAM_BASE`]. Emptiness is reported first, then misalignment, then size.
pub fn reserve(ram_bytes: usize) -> (r: Result<(usize, usize), LayoutError>)
    requires
        // The whole window ends at 4 GiB, one past what a 32-bit `usize` holds.
        ram_bytes == MAX_RAM_BYTES ==> RAM_BASE + MAX_RAM_BYTES <= usize::MAX,
    ensures
        ram_bytes == 0 ==> r == Err::<(usize, usize), LayoutError>(LayoutError::Empty),
        ram_bytes != 0 && ram_bytes % PAGE_SIZE != 0
            ==> r == Err::<(usize, usize), LayoutError>(LayoutError::Unaligned { requested: ram_bytes }),
        ram_bytes != 0 && ram_bytes % PAGE_SIZE == 0 && ram_bytes > MAX_RAM_BYTES
            ==> r == Err::<(usize, usize), LayoutError>(LayoutError::TooLarge { requested: ram_bytes, max: MAX_RAM_BYTES }),
        ram_bytes != 0 && ram_bytes % PAGE_SIZE == 0 && ram_bytes <= MAX_RAM_BYTES
            ==> r == Ok::<(usize, usize), LayoutError>((RAM_BASE, (RAM_BASE + ram_bytes) as usize)),
{
    if ram_bytes == 0 {
        return Err(LayoutError::Empty);
    }
    if ram_bytes % PAGE_SIZE != 0 {
        return Err(LayoutError::Unaligned { requested: ram_bytes });
    }
    if ram_bytes as u64 > MAX_RAM_BYTES as u64 {
        return Err(LayoutError::TooLarge { requested: ram_bytes, max: MAX_RAM_BYTES });
    }
    Ok((RAM_BASE, RAM_BASE + ram_bytes))
}

/// Translates a guest physical address to a linear-memory byte offset.
///
/// Returns `None` when the address falls outside the configured RAM window
/// `[PHYS_RAM_BASE, PHYS_RAM_BASE + ram_bytes)`; MMIO addresses are below
/// [`PHYS_RAM_BASE`] and are dispatched elsewhere.
pub fn linear_offset(guest_physical: u64, ram_bytes: usize) -> (r: Option<usize>)
    requires
        PHYS_RAM_BASE <= guest_physical < PHYS_RAM_BASE + ram_bytes
            ==> RAM_BASE + (guest_physical - PHYS_RAM_BASE) <= usize::MAX,
    ensures
        r is Some <==> PHYS_RAM_BASE <= guest_physical < PHYS_RAM_BASE + ram_bytes,
        r matches Some(offset) ==> offset == RAM_BASE + (guest_physical - PHYS_RAM_BASE),
{
    if guest_physical < PHYS_RAM_BASE {
        return None;
    }
    let offset_in_ram = guest_physical - PHYS_RAM_BASE;
    if offset_in_ram >= ram_bytes as u64 {
        return None;
    }
    Some(RAM_BASE + offset_in_ram as usize)
}

} // verus!
