use vstd::prelude::*;

pub mod idt;

verus! {

/// Where a general-protection fault's error code points: the table (the IDT
/// or the GDT) and the index of the descriptor in it.
#[derive(PartialEq, Eq, Structural, Clone, Copy, Debug)]
pub struct FaultSource {
    pub in_idt: bool,
    pub index: u32,
}

/// Reads a general-protection fault's error code: a zero code points nowhere;
/// otherwise bits 1-2 name the table (1 for the IDT, anything else is read as
/// the GDT) and bits 3-31 the index.
pub fn general_protection_fault_source(error_code: u32) -> (r: Option<FaultSource>)
    ensures
        error_code == 0 ==> r is None,
        error_code != 0 ==> r == Some(
            FaultSource {
                in_idt: (error_code & 6) >> 1u32 == 1,
                index: error_code >> 3u32,
            },
        ),
{
    if error_code != 0 {
        let tbl_num = (error_code & 6) >> 1;
        Some(FaultSource { in_idt: tbl_num == 1, index: error_code >> 3 })
    } else {
        None
    }
}

} // verus!
