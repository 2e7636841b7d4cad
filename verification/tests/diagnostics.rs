use kernel_diag::harness::{announce, report_test_ok, report_test_start, run, TestOutcome, TestRecord};
use kernel_diag::host_exit::{exit_code, ExitStatus, HostExit};
use kernel_diag::panic_router::{report_failure, route_panic, PanicMode};
use kernel_diag::serial::{SerialChannel, SERIAL_PORT};
use kernel_diag::vga_buffer::{Writer, BUFFER_HEIGHT};

fn stream_of(serial: &SerialChannel) -> String {
    serial.transmitted().iter().collect()
}

#[test]
fn serial_transmits_characters_in_order() {
    let mut s = SerialChannel::new(SERIAL_PORT);
    s.write_str("abc");
    s.write_char('d');
    s.write_str("");
    s.write_str("ef");
    assert_eq!(stream_of(&s), "abcdef");
}

#[test]
fn exit_codes_match_the_emulator_contract() {
    assert_eq!(exit_code(ExitStatus::Success), 0x10);
    assert_eq!(exit_code(ExitStatus::Failed), 0x11);
}

#[test]
fn host_exit_records_a_single_status() {
    let mut h = HostExit::new();
    assert_eq!(h.status_now(), None);
    h.signal(ExitStatus::Failed);
    assert_eq!(h.status_now(), Some(ExitStatus::Failed));
}

#[test]
fn announce_formats_the_test_count() {
    let mut s = SerialChannel::new(SERIAL_PORT);
    announce(&mut s, 3);
    assert_eq!(stream_of(&s), "Running 3 tests\n");

    let mut s = SerialChannel::new(SERIAL_PORT);
    announce(&mut s, 0);
    assert_eq!(stream_of(&s), "Running 0 tests\n");

    let mut s = SerialChannel::new(SERIAL_PORT);
    announce(&mut s, 12305);
    assert_eq!(stream_of(&s), "Running 12305 tests\n");
}

#[test]
fn test_reporting_markers() {
    let mut s = SerialChannel::new(SERIAL_PORT);
    report_test_start(&mut s, "my_test");
    report_test_ok(&mut s);
    assert_eq!(stream_of(&s), "my_test...\t[ok]\n");
}

#[test]
fn failure_report_carries_marker_and_fault_text() {
    let mut s = SerialChannel::new(SERIAL_PORT);
    let mut h = HostExit::new();
    report_failure(&mut s, &mut h, "assertion failed: 1 == 2");
    assert_eq!(stream_of(&s), "[failed]\n\nError: assertion failed: 1 == 2\n\n");
    assert_eq!(h.status_now(), Some(ExitStatus::Failed));
}

#[test]
fn second_test_panicking_ends_the_run() {
    let tests = vec![
        TestRecord { name: String::from("first") },
        TestRecord { name: String::from("second") },
        TestRecord { name: String::from("third") },
    ];
    let outcomes = vec![
        TestOutcome::Passed,
        TestOutcome::Panicked(String::from("boom")),
        TestOutcome::Passed,
    ];
    let mut s = SerialChannel::new(SERIAL_PORT);
    let mut h = HostExit::new();
    run(&tests, &outcomes, &mut s, &mut h);
    assert_eq!(
        stream_of(&s),
        "Running 3 tests\nfirst...\t[ok]\nsecond...\t[failed]\n\nError: boom\n\n"
    );
    assert_eq!(h.status_now(), Some(ExitStatus::Failed));
    assert!(!stream_of(&s).contains("third"));
}

#[test]
fn all_passing_tests_exit_success_after_all_ran() {
    let tests = vec![
        TestRecord { name: String::from("alpha") },
        TestRecord { name: String::from("beta") },
        TestRecord { name: String::from("gamma") },
        TestRecord { name: String::from("delta") },
    ];
    let outcomes = vec![
        TestOutcome::Passed,
        TestOutcome::Passed,
        TestOutcome::Passed,
        TestOutcome::Passed,
    ];
    let mut s = SerialChannel::new(SERIAL_PORT);
    let mut h = HostExit::new();
    run(&tests, &outcomes, &mut s, &mut h);
    assert_eq!(
        stream_of(&s),
        "Running 4 tests\nalpha...\t[ok]\nbeta...\t[ok]\ngamma...\t[ok]\ndelta...\t[ok]\n"
    );
    assert_eq!(h.status_now(), Some(ExitStatus::Success));
}

#[test]
fn empty_run_exits_success_immediately() {
    let tests: Vec<TestRecord> = Vec::new();
    let outcomes: Vec<TestOutcome> = Vec::new();
    let mut s = SerialChannel::new(SERIAL_PORT);
    let mut h = HostExit::new();
    run(&tests, &outcomes, &mut s, &mut h);
    assert_eq!(stream_of(&s), "Running 0 tests\n");
    assert_eq!(h.status_now(), Some(ExitStatus::Success));
}

#[test]
fn normal_panic_renders_to_console_and_leaves_serial_alone() {
    let mut w = Writer::new();
    let mut s = SerialChannel::new(SERIAL_PORT);
    let mut h = HostExit::new();
    route_panic(PanicMode::Normal, "panicked at 'oops'", &mut w, &mut s, &mut h);
    assert_eq!(w.cell_at(BUFFER_HEIGHT - 2, 0), 0x0F70);
    assert_eq!(w.cell_at(BUFFER_HEIGHT - 2, 1), 0x0F61);
    assert_eq!(stream_of(&s), "");
    assert_eq!(h.status_now(), None);
}

#[test]
fn test_panic_reports_over_serial_and_signals_failed() {
    let mut w = Writer::new();
    let mut s = SerialChannel::new(SERIAL_PORT);
    let mut h = HostExit::new();
    route_panic(PanicMode::Test, "index out of bounds", &mut w, &mut s, &mut h);
    assert_eq!(stream_of(&s), "[failed]\n\nError: index out of bounds\n\n");
    assert_eq!(h.status_now(), Some(ExitStatus::Failed));
    assert_eq!(w.cell_at(BUFFER_HEIGHT - 1, 0), 0x0F20);
    assert_eq!(w.column_position(), 0);
}
