use deet::parse::ParseAddressRes;
use deet::parse::parse_address;
use deet::unwind::StackFrame;
use deet::unwind::UnwindAction;
use deet::unwind::return_address_slot;
use deet::unwind::unwind_step;

#[test]
fn address_with_hex_prefix() {
    assert!(matches!(parse_address("*0x1000"), ParseAddressRes::Addr(4096)));
    assert!(matches!(parse_address("*0X1aF"), ParseAddressRes::Addr(0x1af)));
}

#[test]
fn address_without_prefix_is_hex() {
    assert!(matches!(parse_address("*1000"), ParseAddressRes::Addr(4096)));
    assert!(matches!(parse_address("*ff"), ParseAddressRes::Addr(255)));
}

#[test]
fn bare_integer_is_line_number() {
    assert!(matches!(parse_address("42"), ParseAddressRes::LineNumber(42)));
    assert!(matches!(parse_address("0"), ParseAddressRes::LineNumber(0)));
}

#[test]
fn other_tokens_are_function_names() {
    assert!(matches!(parse_address("main"), ParseAddressRes::FunctionName("main")));
    assert!(matches!(parse_address("f_2"), ParseAddressRes::FunctionName("f_2")));
    assert!(matches!(parse_address(""), ParseAddressRes::FunctionName("")));
    // Decimal digits that overflow the address width are not a line number.
    assert!(matches!(
        parse_address("99999999999999999999999999"),
        ParseAddressRes::FunctionName("99999999999999999999999999")
    ));
}

#[test]
fn bad_starred_requests() {
    assert!(matches!(parse_address("*"), ParseAddressRes::FalseAddr));
    assert!(matches!(parse_address("*0x"), ParseAddressRes::FalseAddr));
    assert!(matches!(parse_address("*zz"), ParseAddressRes::FalseAddr));
    assert!(matches!(parse_address("*0xg1"), ParseAddressRes::FalseAddr));
    // Seventeen hex digits overflow a 64-bit address.
    assert!(matches!(
        parse_address("*0x1ffffffffffffffff"),
        ParseAddressRes::FalseAddr
    ));
}

#[test]
fn unwind_three_frames_stops_at_entry() {
    let mut frames: Vec<StackFrame> = Vec::new();
    let a1 = unwind_step(
        &mut frames,
        0x5010,
        Some("g".to_string()),
        Some("sample.c:9".to_string()),
    );
    assert_eq!(a1, UnwindAction::Next);
    let a2 = unwind_step(
        &mut frames,
        0x5120,
        Some("f".to_string()),
        Some("sample.c:5".to_string()),
    );
    assert_eq!(a2, UnwindAction::Next);
    let a3 = unwind_step(
        &mut frames,
        0x5230,
        Some("main".to_string()),
        Some("sample.c:2".to_string()),
    );
    assert_eq!(a3, UnwindAction::Finished);
    assert_eq!(frames.len(), 3);
    assert_eq!(frames[0].function, "g");
    assert_eq!(frames[0].addr, 0x5010);
    assert_eq!(frames[1].function, "f");
    assert_eq!(frames[2].function, "main");
    assert_eq!(frames[2].line, "sample.c:2");
}

#[test]
fn unwind_fails_on_missing_symbols() {
    let mut frames: Vec<StackFrame> = Vec::new();
    let a = unwind_step(&mut frames, 0x5010, None, Some("sample.c:9".to_string()));
    assert_eq!(a, UnwindAction::Failed);
    assert!(frames.is_empty());
    let b = unwind_step(&mut frames, 0x5010, Some("g".to_string()), None);
    assert_eq!(b, UnwindAction::Failed);
    assert!(frames.is_empty());
}

#[test]
fn unwind_entry_frame_alone_finishes() {
    let mut frames: Vec<StackFrame> = Vec::new();
    let a = unwind_step(
        &mut frames,
        0x1000,
        Some("main".to_string()),
        Some("sample.c:3".to_string()),
    );
    assert_eq!(a, UnwindAction::Finished);
    assert_eq!(frames.len(), 1);
}

#[test]
fn return_address_slot_is_one_word_up() {
    assert_eq!(return_address_slot(0x7000), Some(0x7008));
    assert_eq!(return_address_slot(usize::MAX), None);
    assert_eq!(return_address_slot(usize::MAX - 8), Some(usize::MAX));
}
