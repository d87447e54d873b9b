use vstd::prelude::*;

verus! {

/// The record that the stat call fills in, as user programs lay it out.
#[derive(Copy, Clone, PartialEq, Eq, Structural, Debug)]
pub struct Stat {
    pub directory_name_length: usize,
    pub directory_size: usize,
    pub is_folder: bool,
    pub child_nodes_count: usize,
}

/// What the process-information call tells of a process.
#[derive(Copy, Clone, PartialEq, Eq, Structural, Debug)]
pub struct ProcInfo {
    pub process_index: u32,
    pub process_name_length: u32,
    pub process_base: u32,
    pub process_total_size: u32,
    pub arguments_count: u32,
    pub process_stack_size: u32,
}

/// What the process-information call returns when there is no process at
/// the index.
pub const NO_PROCESS: usize = 0xffffffff;

/// The record of a process-information call that returned `result`: none
/// when there is no such process.
pub fn proc_info_result(result: usize, info: ProcInfo) -> (r: Option<ProcInfo>)
    ensures
        r == (if result == NO_PROCESS {
            None
        } else {
            Some(info)
        }),
{
    if result == NO_PROCESS {
        None
    } else {
        Some(info)
    }
}

} // verus!
