use deet::status::Status;
use deet::status::WaitReport;
use deet::status::classify_wait;
use deet::status::initial_stop_accepted;
use deet::store::BreakpointStore;
use deet::words::TRAP_OPCODE;
use deet::words::align_addr_to_word;
use deet::words::byte_offset_in_word;
use deet::words::extract_byte;
use deet::words::replace_byte;

#[test]
fn align_addr_examples() {
    assert_eq!(align_addr_to_word(0x1000), 0x1000);
    assert_eq!(align_addr_to_word(0x1003), 0x1000);
    assert_eq!(align_addr_to_word(0x1007), 0x1000);
    assert_eq!(align_addr_to_word(7), 0);
    assert_eq!(byte_offset_in_word(0x1003), 3);
    assert_eq!(byte_offset_in_word(0x1000), 0);
}

#[test]
fn extract_and_replace_byte_exact() {
    let word: u64 = 0x1122_3344_5566_7788;
    assert_eq!(extract_byte(word, 0), 0x88);
    assert_eq!(extract_byte(word, 3), 0x55);
    assert_eq!(extract_byte(word, 7), 0x11);
    let patched = replace_byte(word, 3, 0xcc);
    assert_eq!(patched, 0x1122_3344_cc66_7788);
    assert_eq!(extract_byte(patched, 3), 0xcc);
    assert_eq!(extract_byte(patched, 2), 0x66);
}

#[test]
fn patch_restore_roundtrip_word() {
    let word: u64 = 0xdead_beef_0102_0304;
    for off in 0..8 {
        let orig = extract_byte(word, off);
        let patched = replace_byte(word, off, TRAP_OPCODE);
        assert_eq!(replace_byte(patched, off, orig), word);
    }
}

#[test]
fn install_restore_roundtrip_store() {
    // An unaligned address: byte 5 of the containing word.
    let addr: usize = 0x40_0005;
    let word: u64 = 0x0102_0304_0506_0708;
    let mut store = BreakpointStore::new();
    let trapped = store.install_patch(addr, word);
    assert_eq!(trapped, 0x0102_cc04_0506_0708);
    assert!(store.is_installed(addr));
    let restored = store.restore_patch(addr, trapped);
    assert_eq!(restored, Some(word));
    assert!(!store.is_installed(addr));
}

#[test]
fn restore_without_breakpoint_is_noop() {
    let mut store = BreakpointStore::new();
    assert_eq!(store.restore_patch(0x1234, 0xffff_ffff_ffff_ffff), None);
    store.add_pending(0x1000);
    let trapped = store.install_patch(0x1000, 0x9090_9090_9090_9090);
    // A different address: still a no-op, and the installed trap stays.
    assert_eq!(store.restore_patch(0x1001, trapped), None);
    assert!(store.is_installed(0x1000));
}

#[test]
fn step_over_candidate_after_trap() {
    let addr: usize = 0x8_0000;
    let mut store = BreakpointStore::new();
    store.install_patch(addr, 0x5544_3322_1100_ffee);
    // The kernel reports the instruction pointer one byte past the trap.
    assert_eq!(store.step_over_candidate(addr + 1), Some(addr));
    assert_eq!(store.step_over_candidate(addr), None);
    assert_eq!(store.step_over_candidate(0), None);
}

#[test]
fn breakpoints_persist_across_restart() {
    let addr: usize = 0x2_0010;
    let mut store = BreakpointStore::new();
    store.add_pending(addr);
    // First run: install the pending breakpoint into the live process.
    let mut to_install = Vec::new();
    while let Some(a) = store.pop_pending() {
        to_install.push(a);
    }
    assert_eq!(to_install, vec![addr]);
    let word: u64 = 0x1111_2222_3333_4444;
    store.install_patch(addr, word);
    assert!(store.is_installed(addr));
    // The process dies: the address survives as pending, the byte does not.
    store.on_process_killed();
    assert!(!store.is_installed(addr));
    assert_eq!(store.pop_pending(), Some(addr));
    // Next run: the same address installs against the fresh image.
    let fresh_word: u64 = 0x9999_8888_7777_6666;
    let trapped = store.install_patch(addr, fresh_word);
    assert!(store.is_installed(addr));
    assert_eq!(extract_byte(trapped, byte_offset_in_word(addr)), TRAP_OPCODE);
}

#[test]
fn pending_addresses_pop_newest_first() {
    let mut store = BreakpointStore::new();
    store.add_pending(0x100);
    store.add_pending(0x200);
    assert_eq!(store.pop_pending(), Some(0x200));
    assert_eq!(store.pop_pending(), Some(0x100));
    assert_eq!(store.pop_pending(), None);
}

#[test]
fn installed_addresses_lists_patched_sites() {
    let mut store = BreakpointStore::new();
    assert!(store.installed_addresses().is_empty());
    store.install_patch(0x100, 0);
    store.install_patch(0x208, 0);
    assert_eq!(store.installed_addresses(), vec![0x100, 0x208]);
    let word = store.restore_patch(0x100, 0).unwrap();
    assert_eq!(word, 0); // the recorded byte was 0, put back over the trap
    assert_eq!(store.installed_addresses(), vec![0x208]);
}

#[test]
fn classify_wait_exit_code() {
    assert_eq!(classify_wait(WaitReport::Exited(7), 0), Some(Status::Exited(7)));
    assert_eq!(classify_wait(WaitReport::Exited(0), 99), Some(Status::Exited(0)));
}

#[test]
fn classify_wait_fatal_signal() {
    assert_eq!(classify_wait(WaitReport::Signaled(9), 0), Some(Status::Signaled(9)));
}

#[test]
fn classify_wait_trap_stop() {
    assert_eq!(
        classify_wait(WaitReport::Stopped(5), 0x4011a9),
        Some(Status::Stopped(5, 0x4011a9))
    );
}

#[test]
fn classify_wait_unknown_report() {
    assert_eq!(classify_wait(WaitReport::Other, 0), None);
}

#[test]
fn initial_stop_must_be_trace_trap() {
    assert!(initial_stop_accepted(WaitReport::Stopped(5)));
    assert!(!initial_stop_accepted(WaitReport::Stopped(11)));
    assert!(!initial_stop_accepted(WaitReport::Exited(0)));
    assert!(!initial_stop_accepted(WaitReport::Signaled(9)));
    assert!(!initial_stop_accepted(WaitReport::Other));
}
