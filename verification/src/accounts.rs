use vstd::prelude::*;

verus! {

/// The raw bytes of an account look unused: every byte except the last is
/// zero. The final byte is deliberately left out of the scan, so a single
/// trailing non-zero byte does not count as use.
pub open spec fn all_but_last_zero(data: Seq<u8>) -> bool {
    forall|i: int| 0 <= i < data.len() - 1 ==> data[i] == 0
}

/// Decide whether an account's raw data is all zero, ignoring its last byte.
pub fn is_zero_account(account_data: &Vec<u8>) -> (is_zero: bool)
    requires
        account_data@.len() >= 1,
    ensures
        is_zero <==> all_but_last_zero(account_data@),
{
    let len = account_data.len();
    let mut is_zero = true;
    let mut i: usize = 0;
    while i < len - 1
        invariant
            len == account_data@.len(),
            1 <= len,
            i <= len - 1,
            is_zero <==> (forall|j: int| 0 <= j < i ==> account_data@[j] == 0),
        decreases len - 1 - i,
    {
        if account_data[i] != 0 {
            is_zero = false;
        }
        i += 1;
    }
    is_zero
}

} // verus!
