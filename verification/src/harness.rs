//! The test harness: announce the number of tests over the serial channel,
//! execute each test in order reporting its name and outcome, and end the run
//! through the host-exit protocol — `Success` only after every test returned
//! normally, `Failed` through the panic router's test configuration the
//! moment one test panics. There is no test isolation: one failure terminates
//! the whole run and later tests never execute.

use vstd::prelude::*;
use crate::serial::SerialChannel;
use crate::host_exit::{HostExit, ExitStatus};
use crate::panic_router::{failure_report, report_failure};

verus! {

/// One executable unit under test, known to the harness by its display name.
pub struct TestRecord {
    pub name: String,
}

/// What invoking one test did: returned normally, or panicked with the
/// fault's description.
pub enum TestOutcome {
    Passed,
    Panicked(String),
}

/// The decimal digit characters.
pub open spec fn digit_char(d: int) -> char {
    if d == 0 { '0' }
    else if d == 1 { '1' }
    else if d == 2 { '2' }
    else if d == 3 { '3' }
    else if d == 4 { '4' }
    else if d == 5 { '5' }
    else if d == 6 { '6' }
    else if d == 7 { '7' }
    else if d == 8 { '8' }
    else { '9' }
}

/// The decimal digits of `n`, most significant first, no leading zeros
/// except for `n == 0` itself.
pub open spec fn dec_digits(n: nat) -> Seq<char>
    decreases n,
{
    if n < 10 {
        seq![digit_char(n as int)]
    } else {
        dec_digits(n / 10).push(digit_char((n % 10) as int))
    }
}

/// The announcement line that opens a run of `n` tests.
pub open spec fn announce_line(n: nat) -> Seq<char> {
    "Running "@ + dec_digits(n) + " tests\n"@
}

/// The header emitted for one test before it is invoked.
pub open spec fn test_header(name: Seq<char>) -> Seq<char> {
    name + "...\t"@
}

/// The marker emitted after a test returns normally.
pub open spec fn ok_marker() -> Seq<char> {
    "[ok]\n"@
}

/// The display names of a sequence of test records.
pub open spec fn rec_names(ts: Seq<TestRecord>) -> Seq<Seq<char>> {
    Seq::new(ts.len(), |i: int| ts[i].name@)
}

/// Whether every outcome is a normal return.
pub open spec fn all_passed(os: Seq<TestOutcome>) -> bool {
    forall|i: int| 0 <= i < os.len() ==> (#[trigger] os[i]) is Passed
}

/// Everything the serial line receives after the announcement, given the
/// tests' names and what each invocation did: each test's header in order,
/// `[ok]` after a normal return, and after the first panic the failure
/// report — nothing further, since a failing test ends the run.
pub open spec fn run_transcript(names: Seq<Seq<char>>, outcomes: Seq<TestOutcome>) -> Seq<char>
    decreases names.len(),
{
    if names.len() == 0 {
        Seq::empty()
    } else {
        match outcomes[0] {
            TestOutcome::Passed => test_header(names[0]) + ok_marker()
                + run_transcript(names.skip(1), outcomes.skip(1)),
            TestOutcome::Panicked(m) => test_header(names[0]) + failure_report(m@),
        }
    }
}

/// The serial text of the first `k` tests when all of them passed.
spec fn passed_prefix(names: Seq<Seq<char>>, k: int) -> Seq<char>
    decreases k,
{
    if k <= 0 {
        Seq::empty()
    } else {
        passed_prefix(names, k - 1) + test_header(names[k - 1]) + ok_marker()
    }
}

/// Splitting the transcript after `k` tests that all passed.
proof fn lemma_transcript_split(names: Seq<Seq<char>>, outcomes: Seq<TestOutcome>, k: int)
    requires
        0 <= k <= names.len(),
        names.len() == outcomes.len(),
        forall|i: int| 0 <= i < k ==> (#[trigger] outcomes[i]) is Passed,
    ensures
        run_transcript(names, outcomes) == passed_prefix(names, k)
            + run_transcript(names.skip(k), outcomes.skip(k)),
    decreases k,
{
    if k == 0 {
        assert(names.skip(0) =~= names);
        assert(outcomes.skip(0) =~= outcomes);
        assert(passed_prefix(names, 0) + run_transcript(names, outcomes)
            =~= run_transcript(names, outcomes));
    } else {
        lemma_transcript_split(names, outcomes, k - 1);
        let tail_names = names.skip(k - 1);
        let tail_outcomes = outcomes.skip(k - 1);
        assert(tail_names[0] == names[k - 1]);
        assert(tail_outcomes[0] == outcomes[k - 1]);
        assert(tail_names.skip(1) =~= names.skip(k));
        assert(tail_outcomes.skip(1) =~= outcomes.skip(k));
        assert(run_transcript(tail_names, tail_outcomes) == test_header(names[k - 1]) + ok_marker()
            + run_transcript(names.skip(k), outcomes.skip(k)));
        assert(passed_prefix(names, k - 1) + (test_header(names[k - 1]) + ok_marker()
            + run_transcript(names.skip(k), outcomes.skip(k)))
            =~= (passed_prefix(names, k - 1) + test_header(names[k - 1]) + ok_marker())
                + run_transcript(names.skip(k), outcomes.skip(k)));
    }
}

/// One decimal digit as a character.
fn digit_of(d: u64) -> (c: char)
    requires
        d < 10,
    ensures
        c == digit_char(d as int),
{
    match d {
        0 => '0',
        1 => '1',
        2 => '2',
        3 => '3',
        4 => '4',
        5 => '5',
        6 => '6',
        7 => '7',
        8 => '8',
        _ => '9',
    }
}

/// Append the decimal digits of `n` to `out`, most significant first.
fn push_dec_digits(n: u64, out: &mut Vec<char>)
    ensures
        final(out)@ == old(out)@ + dec_digits(n as nat),
    decreases n,
{
    if n < 10 {
        out.push(digit_of(n));
        proof {
            assert(old(out)@.push(digit_char(n as int)) =~= old(out)@ + dec_digits(n as nat));
        }
    } else {
        push_dec_digits(n / 10, out);
        out.push(digit_of(n % 10));
        proof {
            assert((old(out)@ + dec_digits((n / 10) as nat)).push(digit_char((n % 10) as int))
                =~= old(out)@ + dec_digits(n as nat));
        }
    }
}

/// Open a run: announce over the serial channel how many tests will execute.
pub fn announce(serial: &mut SerialChannel, n: u64)
    ensures
        final(serial).port_spec() == old(serial).port_spec(),
        final(serial).stream() == old(serial).stream() + announce_line(n as nat),
{
    serial.write_str("Running ");
    let mut digits: Vec<char> = Vec::new();
    push_dec_digits(n, &mut digits);
    serial.write_chars(&digits);
    serial.write_str(" tests\n");
    proof {
        assert(old(serial).stream() + "Running "@ + dec_digits(n as nat) + " tests\n"@
            =~= old(serial).stream() + announce_line(n as nat));
    }
}

/// Emit one test's name header before invoking it.
pub fn report_test_start(serial: &mut SerialChannel, name: &str)
    ensures
        final(serial).port_spec() == old(serial).port_spec(),
        final(serial).stream() == old(serial).stream() + test_header(name@),
{
    serial.write_str(name);
    serial.write_str("...\t");
    proof {
        assert(old(serial).stream() + name@ + "...\t"@
            =~= old(serial).stream() + test_header(name@));
    }
}

/// Emit the pass marker after a test returned normally.
pub fn report_test_ok(serial: &mut SerialChannel)
    ensures
        final(serial).port_spec() == old(serial).port_spec(),
        final(serial).stream() == old(serial).stream() + ok_marker(),
{
    serial.write_str("[ok]\n");
}

/// Run a sequence of tests whose invocations did `outcomes`: announce the
/// count, then report each test in order until the first panic, and end the
/// run through the host-exit protocol — `Success` exactly when every test
/// passed, `Failed` through the failure report the moment one panicked.
/// Tests after the first panic never appear on the line.
pub fn run(
    tests: &Vec<TestRecord>,
    outcomes: &Vec<TestOutcome>,
    serial: &mut SerialChannel,
    host: &mut HostExit,
)
    requires
        old(host).status() is None,
        tests@.len() == outcomes@.len(),
    ensures
        final(serial).port_spec() == old(serial).port_spec(),
        final(serial).stream() == old(serial).stream() + announce_line(tests@.len() as nat)
            + run_transcript(rec_names(tests@), outcomes@),
        final(host).status() == Some(
            if all_passed(outcomes@) { ExitStatus::Success } else { ExitStatus::Failed },
        ),
{
    let ghost names = rec_names(tests@);
    let ghost opening = old(serial).stream() + announce_line(tests@.len() as nat);
    let n = tests.len();
    announce(serial, n as u64);
    let mut i: usize = 0;
    while i < n
        invariant
            i <= n,
            n == tests@.len(),
            n == outcomes@.len(),
            names == rec_names(tests@),
            opening == old(serial).stream() + announce_line(tests@.len() as nat),
            host.status() is None,
            serial.port_spec() == old(serial).port_spec(),
            serial.stream() == opening + passed_prefix(names, i as int),
            forall|j: int| 0 <= j < i ==> (#[trigger] outcomes@[j]) is Passed,
        decreases n - i,
    {
        let rec = &tests[i];
        report_test_start(serial, rec.name.as_str());
        proof {
            assert(names[i as int] == tests@[i as int].name@);
            assert(opening + passed_prefix(names, i as int) + test_header(names[i as int])
                =~= opening + (passed_prefix(names, i as int) + test_header(names[i as int])));
        }
        match &outcomes[i] {
            TestOutcome::Passed => {
                report_test_ok(serial);
                proof {
                    assert(opening + (passed_prefix(names, i as int) + test_header(names[i as int]))
                        + ok_marker()
                        =~= opening + passed_prefix(names, i as int + 1));
                }
            },
            TestOutcome::Panicked(m) => {
                report_failure(serial, host, m.as_str());
                proof {
                    lemma_transcript_split(names, outcomes@, i as int);
                    let tail_names = names.skip(i as int);
                    let tail_outcomes = outcomes@.skip(i as int);
                    assert(tail_names[0] == names[i as int]);
                    assert(tail_outcomes[0] == outcomes@[i as int]);
                    assert(run_transcript(tail_names, tail_outcomes)
                        == test_header(names[i as int]) + failure_report(m@));
                    assert(opening + (passed_prefix(names, i as int) + test_header(names[i as int]))
                        + failure_report(m@)
                        =~= opening + (passed_prefix(names, i as int)
                            + (test_header(names[i as int]) + failure_report(m@))));
                    assert(!all_passed(outcomes@));
                }
                return ;
            },
        }
        i = i + 1;
    }
    host.signal(ExitStatus::Success);
    proof {
        lemma_transcript_split(names, outcomes@, n as int);
        assert(names.skip(n as int).len() == 0);
        assert(run_transcript(names.skip(n as int), outcomes@.skip(n as int)) == Seq::<char>::empty());
        assert(passed_prefix(names, n as int) + Seq::<char>::empty() =~= passed_prefix(names, n as int));
        assert(all_passed(outcomes@));
    }
}

} // verus!
