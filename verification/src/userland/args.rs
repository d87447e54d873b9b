use vstd::prelude::*;

verus! {

/// The length of a zero-terminated string whose bytes (from its start on)
/// are `bytes`: the index of the first zero byte, if there is one.
pub fn terminated_length(bytes: &[u8]) -> (r: Option<usize>)
    ensures
        r matches Some(n) ==> n < bytes@.len() && bytes@[n as int] == 0 && forall|i: int|
            0 <= i < n ==> bytes@[i] != 0,
        r is None ==> forall|i: int| 0 <= i < bytes@.len() ==> bytes@[i] != 0,
{
    let mut i: usize = 0;
    while i < bytes.len()
        invariant
            i <= bytes@.len(),
            forall|k: int| 0 <= k < i ==> bytes@[k] != 0,
        decreases bytes@.len() - i,
    {
        if bytes[i] == 0 {
            return Some(i);
        }
        i = i + 1;
    }
    None
}

} // verus!
