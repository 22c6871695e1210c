use vstd::prelude::*;

verus! {

/// Number of auxiliary channels carried by one register bank.
pub const BANK_WIDTH: usize = 3;

/// Number of auxiliary channels of one device: two banks side by side.
pub const AUX_CHANNELS: usize = 6;

/// Joins the two auxiliary register banks of one device into its channel
/// array: bank A gives channels 0 to 2 and bank B channels 3 to 5, each in
/// its own order.
pub fn assemble_aux_banks(bank_a: &[u16; 3], bank_b: &[u16; 3]) -> (r: [u16; 6])
    ensures
        r@ == bank_a@ + bank_b@,
{
    let mut r: [u16; 6] = [0u16; 6];
    let mut k: usize = 0;
    while k < BANK_WIDTH
        invariant
            0 <= k <= BANK_WIDTH,
            r@.len() == AUX_CHANNELS,
            forall|j: int| 0 <= j < k ==> r@[j] == bank_a@[j],
            forall|j: int| 0 <= j < k ==> r@[j + 3] == bank_b@[j],
        decreases BANK_WIDTH - k,
    {
        r[k] = bank_a[k];
        r[k + BANK_WIDTH] = bank_b[k];
        k = k + 1;
    }
    assert(r@ =~= bank_a@ + bank_b@);
    r
}

} // verus!
