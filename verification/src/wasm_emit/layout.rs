//! Linear-memory layout constants of the WASM backend.

use vstd::prelude::*;

verus! {

pub const WASM_PAGE_SIZE_BYTES: u64 = 65536;

/// The number of whole pages in `bytes`, when `bytes` is a page multiple and
/// the page count fits in a `u32`.
pub open spec fn spec_bytes_to_pages_exact(bytes: u64) -> Option<u32> {
    if bytes % 65536 != 0 {
        None
    } else if bytes / 65536 > u32::MAX {
        None
    } else {
        Some((bytes / 65536) as u32)
    }
}

/// A byte count converts to `p` pages exactly when it is `p` whole 64 KiB
/// pages: `p * 65536 == bytes`.
pub proof fn lemma_pages_exact_times_page_size(bytes: u64, p: u32)
    ensures
        spec_bytes_to_pages_exact(bytes) == Some(p) <==> p * 65536 == bytes,
{
    vstd::arithmetic::div_mod::lemma_fundamental_div_mod(bytes as int, 65536);
    if p * 65536 == bytes {
        vstd::arithmetic::div_mod::lemma_div_multiples_vanish(p as int, 65536);
        vstd::arithmetic::div_mod::lemma_mod_multiples_basic(p as int, 65536);
    }
}

pub fn bytes_to_pages_exact(bytes: u64) -> (r: Option<u32>)
    ensures
        r == spec_bytes_to_pages_exact(bytes),
{
    if bytes % WASM_PAGE_SIZE_BYTES != 0 {
        return None;
    }
    let pages = bytes / WASM_PAGE_SIZE_BYTES;
    if pages > u32::MAX as u64 {
        None
    } else {
        Some(pages as u32)
    }
}

} // verus!
