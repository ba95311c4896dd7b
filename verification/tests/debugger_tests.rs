use deet::breakpoint::BreakpointTable;
use deet::parse::parse_address;
use deet::session::{Report, Session};
use deet::stack::StackWalk;
use deet::trace::{cook_stop, interpret_wait, patch_word, report_status, RawWait, Status, TraceError};

#[test]
fn parse_plain_hex() {
    assert_eq!(parse_address("401136"), Some(0x401136));
    assert_eq!(parse_address("0x401136"), Some(0x401136));
    assert_eq!(parse_address("0X401136"), Some(0x401136));
    assert_eq!(parse_address("0xDEADbeef"), Some(0xdeadbeef));
}

#[test]
fn parse_sign_handling() {
    assert_eq!(parse_address("+1f"), Some(0x1f));
    assert_eq!(parse_address("0x+1f"), Some(0x1f));
    assert_eq!(parse_address("-0"), None);
    assert_eq!(parse_address("-1"), None);
    assert_eq!(parse_address("++1"), None);
}

#[test]
fn parse_rejects_bad_input() {
    assert_eq!(parse_address(""), None);
    assert_eq!(parse_address("0x"), None);
    assert_eq!(parse_address("zz"), None);
    assert_eq!(parse_address("12g4"), None);
    assert_eq!(parse_address("0x 12"), None);
}

#[test]
fn parse_word_boundary() {
    assert_eq!(parse_address("0xffffffffffffffff"), Some(usize::MAX));
    assert_eq!(parse_address("0x10000000000000000"), None);
}

#[test]
fn requests_are_kept_in_order() {
    // Requests made before any run are recorded in order, each with its own
    // ordinal, duplicates included; none is installed yet.
    let mut t = BreakpointTable::new();
    assert_eq!(t.request(0x401136), 0);
    assert_eq!(t.request(0x401000), 1);
    assert_eq!(t.request(0x401136), 2);
    assert_eq!(t.len(), 3);
    assert_eq!(t.get(0).address, 0x401136);
    assert_eq!(t.get(1).address, 0x401000);
    assert_eq!(t.get(2).address, 0x401136);
    assert_eq!(t.get(0).saved_byte, None);
    assert_eq!(t.get(1).saved_byte, None);
    assert_eq!(t.get(2).saved_byte, None);
}

#[test]
fn find_installed_picks_first_armed_breakpoint() {
    let mut t = BreakpointTable::new();
    t.request(0x10);
    t.request(0x20);
    t.request(0x10);
    assert_eq!(t.find_installed(0x10), None);
    t.set_saved(2, Some(0xaa));
    assert_eq!(t.find_installed(0x10), Some(2));
    t.set_saved(0, Some(0x55));
    assert_eq!(t.find_installed(0x10), Some(0));
    assert_eq!(t.find_installed(0x20), None);
}

#[test]
fn trap_stop_is_reported_at_the_breakpoint_address() {
    // A trap fires one byte past the breakpoint; the reported instruction
    // pointer is the breakpoint's own address.
    let mut t = BreakpointTable::new();
    t.request(0x401136);
    t.set_saved(0, Some(0x55));
    assert_eq!(cook_stop(&t, 0x401137), (0x401136, true));
    // Stops unrelated to an armed trap are reported where they happened.
    assert_eq!(cook_stop(&t, 0x200), (0x200, false));
    assert_eq!(cook_stop(&t, 0), (0, false));
    // An uninstalled request never rewinds.
    let mut u = BreakpointTable::new();
    u.request(0x401136);
    assert_eq!(cook_stop(&u, 0x401137), (0x401137, false));
}

#[test]
fn patch_word_replaces_one_byte() {
    let (patched, orig) = patch_word(0x1122334455667788, 2, 0xcc);
    assert_eq!(orig, 0x66);
    assert_eq!(patched, 0x11223344_55cc7788);
    let (restored, trap) = patch_word(patched, 2, orig);
    assert_eq!(trap, 0xcc);
    assert_eq!(restored, 0x1122334455667788);
}

#[test]
fn continue_without_process_reports_not_running() {
    // Commands after no process (or after a terminal status discarded the
    // handle) observe "not running" instead of stale state.
    let mut s = Session::new();
    assert_eq!(s.handle_continue(), Report::NotRunning);
    assert!(s.inferior_ref().is_none());
    assert!(!s.is_running());
}

#[test]
fn run_preparation_never_leaves_an_inferior() {
    // `run` first discards any existing process, so two inferiors never
    // coexist; with none present it has nothing to kill.
    let mut s = Session::new();
    assert!(!s.prepare_run());
    assert!(!s.is_running());
    assert!(!s.handle_quit());
}

#[test]
fn invalid_break_syntax_leaves_table_unchanged() {
    let mut s = Session::new();
    assert_eq!(s.handle_break("*0x401136"), Report::BreakpointSet { ordinal: 0, address: 0x401136 });
    assert_eq!(s.breakpoint_count(), 1);
    // `break 0x10` without `*` is rejected and records nothing.
    assert_eq!(s.handle_break("0x10"), Report::BreakSyntax);
    assert_eq!(s.handle_break(""), Report::BreakSyntax);
    assert_eq!(s.handle_break("*zz"), Report::InvalidAddress);
    assert_eq!(s.breakpoint_count(), 1);
    assert_eq!(s.breakpoint_address(0), 0x401136);
    // A second valid request gets the next ordinal.
    assert_eq!(s.handle_break("*1000"), Report::BreakpointSet { ordinal: 1, address: 0x1000 });
    assert_eq!(s.breakpoint_count(), 2);
}

#[test]
fn three_frames_stop_at_entry() {
    // A process stopped inside bar, called from foo, called from main,
    // yields exactly bar, foo, main — and the walk ends at main even though
    // further garbage frame pointers exist.
    let bar_ip = 0x401200;
    let foo_ip = 0x401150;
    let main_ip = 0x401050;
    let bar_fp = 0x7ffd1000;
    let foo_fp = 0x7ffd1100;
    let main_fp = 0x7ffd1200;
    let garbage_fp = 0x31337;

    let mut w = StackWalk::begin(bar_ip, bar_fp);
    assert!(!w.finished);
    // bar: resolvable, not the entry; its frame words lead to foo.
    w.advance(true, false, Some((foo_fp, foo_ip)));
    assert!(!w.finished);
    // foo: resolvable, not the entry; its frame words lead to main.
    w.advance(true, false, Some((main_fp, main_ip)));
    assert!(!w.finished);
    // main: the entry function ends the walk, garbage frames notwithstanding.
    w.advance(true, true, Some((garbage_fp, 0xbad)));
    assert!(w.finished);

    let ips: Vec<usize> = w.frames.iter().map(|f| f.instruction_pointer).collect();
    assert_eq!(ips, vec![bar_ip, foo_ip, main_ip]);
}

#[test]
fn walk_stops_on_null_or_unreadable_frames() {
    // A null frame pointer ends the walk after emitting the frame.
    let mut w = StackWalk::begin(0x400000, 0);
    w.advance(true, false, None);
    assert!(w.finished);
    assert_eq!(w.frames.len(), 1);

    // An unresolvable address ends the walk without emitting.
    let mut u = StackWalk::begin(0x12345, 0x7ffd0000);
    u.advance(false, false, None);
    assert!(u.finished);
    assert_eq!(u.frames.len(), 0);

    // A failed memory read keeps the partial trace.
    let mut p = StackWalk::begin(0x400100, 0x7ffd0000);
    p.advance(true, false, None);
    assert!(p.finished);
    assert_eq!(p.frames.len(), 1);
}

#[test]
fn wait_reports_map_one_for_one() {
    // The OS report becomes the session-facing status: codes and signals
    // kept, a stop paired with the read instruction pointer, a register-read
    // failure or an unhandled report turned into an error.
    assert_eq!(interpret_wait(RawWait::Exited(3), Ok((0, 0))), Ok(Status::Exited(3)));
    assert_eq!(interpret_wait(RawWait::Signaled(9), Ok((0, 0))), Ok(Status::Signaled(9)));
    assert_eq!(
        interpret_wait(RawWait::Stopped(5), Ok((0x401137, 0x7ffd0000))),
        Ok(Status::Stopped(5, 0x401137))
    );
    assert_eq!(
        interpret_wait(RawWait::Stopped(5), Err(3)),
        Err(TraceError::Os(3))
    );
    assert_eq!(
        interpret_wait(RawWait::Other, Ok((0, 0))),
        Err(TraceError::UnexpectedStatus)
    );
}

#[test]
fn resume_reports_cook_only_trap_stops() {
    let mut t = BreakpointTable::new();
    t.request(0x401136);
    t.set_saved(0, Some(0x55));
    // A trap stop one past the armed breakpoint is reported at the
    // breakpoint and asks for a rewind.
    assert_eq!(
        report_status(&t, Status::Stopped(5, 0x401137)),
        (Status::Stopped(5, 0x401136), true)
    );
    // A stop by another signal, even at that address, passes through.
    assert_eq!(
        report_status(&t, Status::Stopped(11, 0x401137)),
        (Status::Stopped(11, 0x401137), false)
    );
    // Terminal statuses pass through.
    assert_eq!(report_status(&t, Status::Exited(0)), (Status::Exited(0), false));
    assert_eq!(report_status(&t, Status::Signaled(9)), (Status::Signaled(9), false));
}

#[test]
fn status_values_compare() {
    assert_eq!(Status::Stopped(5, 0x401136), Status::Stopped(5, 0x401136));
    assert_ne!(Status::Exited(0), Status::Signaled(9));
}
