use kernel::userland::args::terminated_length;
use kernel::userland::io::{LineEditor, LineEvent, DELETE_KEY};
use kernel::userland::ls::{child_path, descends};
use kernel::userland::shell::{heap_read, parse_command, parse_number, HeapRead, ShellCommand, HEAP_SIZE};
use kernel::userland::syscalls::{proc_info_result, ProcInfo, NO_PROCESS};

fn type_keys(editor: &mut LineEditor, keys: &[usize]) -> Vec<LineEvent> {
    keys.iter().map(|k| editor.feed(*k)).collect()
}

#[test]
fn the_line_editor_echoes_erases_and_finishes() {
    let mut e = LineEditor::new();
    let events = type_keys(&mut e, &['l' as usize, 's' as usize, 'x' as usize, DELETE_KEY]);
    assert_eq!(events, vec![
        LineEvent::Echoed('l'),
        LineEvent::Echoed('s'),
        LineEvent::Echoed('x'),
        LineEvent::Erased,
    ]);
    assert_eq!(e.to_string(), "ls");
    assert_eq!(e.feed('7' as usize), LineEvent::Skipped);
    assert_eq!(e.feed('\n' as usize), LineEvent::Finished);
    assert_eq!(e.to_string(), "ls");
    let mut empty = LineEditor::new();
    assert_eq!(empty.feed(DELETE_KEY), LineEvent::Skipped);
    assert_eq!(empty.to_string(), "");
    // only the low byte of a key counts
    assert_eq!(empty.feed(0x141), LineEvent::Echoed('A'));
    assert_eq!(empty.feed(0xE9), LineEvent::Echoed('\u{e9}'));
}

#[test]
fn a_backspace_after_a_character_restores_the_line() {
    let mut e = LineEditor::new();
    type_keys(&mut e, &['c' as usize, 'd' as usize]);
    let before = e.to_string();
    e.feed('q' as usize);
    e.feed(DELETE_KEY);
    assert_eq!(e.to_string(), before);
}

#[test]
fn shell_commands() {
    match parse_command("  echo hello  world ") {
        ShellCommand::Echo(Some(text)) => assert_eq!(text, "hello  world"),
        _ => panic!("expected echo"),
    }
    assert!(matches!(parse_command("echo"), ShellCommand::Echo(None)));
    assert!(matches!(parse_command("echo "), ShellCommand::Echo(None)));
    assert!(matches!(parse_command("help"), ShellCommand::Help));
    assert!(matches!(parse_command(" printheap"), ShellCommand::PrintHeap));
    match parse_command("bin/ls -r  x") {
        ShellCommand::Run { path, args } => {
            assert_eq!(path, "bin/ls");
            assert_eq!(args, vec!["-r", "", "x"]);
        },
        _ => panic!("expected a program"),
    }
    match parse_command("echoes") {
        ShellCommand::Run { path, args } => {
            assert_eq!(path, "echoes");
            assert!(args.is_empty());
        },
        _ => panic!("expected a program"),
    }
    match parse_command("") {
        ShellCommand::Run { path, args } => {
            assert_eq!(path, "");
            assert!(args.is_empty());
        },
        _ => panic!("expected a program"),
    }
}

#[test]
fn heap_ranges() {
    assert_eq!(HEAP_SIZE, 20480);
    assert_eq!(heap_read(20480, 1, HEAP_SIZE), HeapRead::StartOutOfBounds);
    assert_eq!(heap_read(20000, 500, HEAP_SIZE), HeapRead::EndOutOfBounds { end: 20500, max: 480 });
    assert_eq!(heap_read(20000, 480, HEAP_SIZE), HeapRead::Bytes { start: 20000, end: 20480 });
    assert_eq!(heap_read(0, 0, HEAP_SIZE), HeapRead::Bytes { start: 0, end: 0 });
}

#[test]
fn numbers_as_str_parse_reads_them() {
    assert_eq!(parse_number("42"), Some(42));
    assert_eq!(parse_number("+7"), Some(7));
    assert_eq!(parse_number("007"), Some(7));
    assert_eq!(parse_number(""), None);
    assert_eq!(parse_number("+"), None);
    assert_eq!(parse_number("-1"), None);
    assert_eq!(parse_number(" 1"), None);
    assert_eq!(parse_number("1a"), None);
    assert_eq!(parse_number("18446744073709551615"), Some(usize::MAX));
    assert_eq!(parse_number("18446744073709551616"), None);
    for s in ["0", "123", "+99", "x", "4294967296", "99999999999999999999x"] {
        assert_eq!(parse_number(s), s.parse::<usize>().ok());
    }
}

#[test]
fn listing_paths() {
    assert_eq!(child_path(".", "DOCS"), "DOCS");
    assert_eq!(child_path("DOCS", "INFO"), "DOCS/INFO");
    assert_eq!(child_path("a/b", "c"), "a/b/c");
    assert!(descends(true, "DOCS"));
    assert!(!descends(true, "."));
    assert!(!descends(true, ".."));
    assert!(!descends(false, "README"));
    assert!(descends(true, "..."));
}

#[test]
fn zero_terminated_strings() {
    assert_eq!(terminated_length(b"ls\0-r\0"), Some(2));
    assert_eq!(terminated_length(b"\0"), Some(0));
    assert_eq!(terminated_length(b"abc"), None);
    assert_eq!(terminated_length(b""), None);
}

#[test]
fn process_information_results() {
    let info = ProcInfo {
        process_index: 1,
        process_name_length: 5,
        process_base: 0x400000,
        process_total_size: 0x2000,
        arguments_count: 2,
        process_stack_size: 0x1000,
    };
    assert_eq!(proc_info_result(NO_PROCESS, info), None);
    assert_eq!(proc_info_result(1, info), Some(info));
}
