use kernel::syscall::{
    decode_syscall, dir_name_answer, proc_info, process_record, stat_answer, ProcessFacts, Stat, Syscall,
    SyscallStack, NOT_FOUND, UNDEFINED_SYSCALL,
};

#[test]
fn registers_decode_to_calls() {
    assert_eq!(decode_syscall(1, 0x100, 5, 0, 0, 0), Syscall::Open { path_ptr: 0x100, path_len: 5 });
    assert_eq!(decode_syscall(2, 0x200, 3, 9, 9, 9), Syscall::Print { ptr: 0x200, len: 3 });
    assert_eq!(
        decode_syscall(3, 4, 0x300, 64, 0, 0),
        Syscall::Read { fd: 4, buffer_ptr: 0x300, buffer_len: 64 }
    );
    assert_eq!(
        decode_syscall(4, 0x10, 1, 0x20, 2, 0),
        Syscall::Stat { path_ptr: 0x10, path_len: 1, stat_ptr: 0x20, child_node: 2 }
    );
    assert_eq!(decode_syscall(5, 1, 2, 3, 4, 5), Syscall::Getc);
    assert_eq!(decode_syscall(6, 1, 2, 3, 4, 5), Syscall::Delc);
    assert_eq!(
        decode_syscall(7, 0x10, 6, 0x40, 2, 0),
        Syscall::Execv { name_ptr: 0x10, name_len: 6, args_ptr: 0x40, args_count: 2 }
    );
    assert_eq!(
        decode_syscall(8, 0x10, 1, 0x50, 16, 3),
        Syscall::DirName { path_ptr: 0x10, path_len: 1, buffer_ptr: 0x50, buffer_len: 16, child_node: 3 }
    );
    assert_eq!(decode_syscall(0, 1, 2, 3, 4, 5), Syscall::Undefined);
    assert_eq!(decode_syscall(0x42, 1, 2, 3, 4, 5), Syscall::Undefined);
    assert_eq!(UNDEFINED_SYSCALL, 0xff);
}

#[test]
fn the_pushed_registers_name_the_call() {
    let regs = SyscallStack { edi: 6, esi: 5, edx: 4, ecx: 3, ebx: 2, eax: 8 };
    assert_eq!(
        regs.syscall(),
        Syscall::DirName { path_ptr: 2, path_len: 3, buffer_ptr: 4, buffer_len: 5, child_node: 6 }
    );
}

#[test]
fn process_records_are_cut_to_32_bits() {
    let r = process_record(2, 6, 0x1_0040_0000, 0x3000, 1, 0x1000);
    assert_eq!(r.process_index, 2);
    assert_eq!(r.process_name_length, 6);
    assert_eq!(r.process_base, 0x0040_0000);
    assert_eq!(r.process_total_size, 0x3000);
    assert_eq!(r.arguments_count, 1);
    assert_eq!(r.process_stack_size, 0x1000);
}

#[test]
fn proc_info_answers_the_index_or_not_found() {
    let facts = ProcessFacts { name_length: 5, process_base: 0x40_0000, total_size: 0x5000, arguments_count: 2, stack_size: 0x1000 };
    let (answer, record) = proc_info(3, Some(facts));
    assert_eq!(answer, 3);
    let r = record.unwrap();
    assert_eq!(r.process_index, 3);
    assert_eq!(r.process_name_length, 5);
    assert_eq!(r.process_base, 0x40_0000);
    assert_eq!(r.process_total_size, 0x5000);
    assert_eq!(r.arguments_count, 2);
    assert_eq!(r.process_stack_size, 0x1000);
    let (missing, nothing) = proc_info(3, None);
    assert_eq!(missing, 0xffffffff);
    assert!(nothing.is_none());
}

#[test]
fn calls_map_their_outcomes_to_answers() {
    let s = Stat { directory_name_length: 1, directory_size: 0, is_folder: true, child_nodes_count: 2 };
    assert_eq!(stat_answer(&Some(s)), 0);
    assert_eq!(stat_answer(&None), NOT_FOUND);
    assert_eq!(dir_name_answer(&Some("A".to_string())), 0);
    assert_eq!(dir_name_answer(&None), 0xffffffff);
    assert_eq!(Syscall::Print { ptr: 1, len: 2 }.fixed_answer(), Some(0));
    assert_eq!(Syscall::Delc.fixed_answer(), Some(0));
    assert_eq!(Syscall::Undefined.fixed_answer(), Some(0xff));
    assert_eq!(Syscall::Getc.fixed_answer(), None);
    assert_eq!(Syscall::Open { path_ptr: 1, path_len: 2 }.fixed_answer(), None);
}
