//! The panic router: the single point where an unrecoverable fault chooses
//! its sink and terminal action. The configuration is fixed when the machine
//! comes up — normal builds render the fault to the console and halt, test
//! builds report it over the serial channel and signal the host to exit with
//! the failing status. The caller halts after routing in both configurations.

use vstd::prelude::*;
use crate::vga_buffer::{Writer, model_write_chars, lemma_model_write_chars_append, model_write_char};
use crate::serial::SerialChannel;
use crate::host_exit::{HostExit, ExitStatus};

verus! {

/// The build-time choice between the two panic behaviors.
#[derive(Debug, Clone, Copy, PartialEq, Eq, Structural)]
pub enum PanicMode {
    Normal,
    Test,
}

/// The text a fault puts on the serial line in the test configuration: the
/// fixed failure marker, then the fault's description.
pub open spec fn failure_report(msg: Seq<char>) -> Seq<char> {
    "[failed]\n\n"@ + "Error: "@ + msg + "\n\n"@
}

/// Test-configuration fault reporting: emit the failure marker and the fault
/// text over the serial channel, then signal the host to exit as failed.
pub fn report_failure(serial: &mut SerialChannel, host: &mut HostExit, msg: &str)
    requires
        old(host).status() is None,
    ensures
        final(serial).port_spec() == old(serial).port_spec(),
        final(serial).stream() == old(serial).stream() + failure_report(msg@),
        final(host).status() == Some(ExitStatus::Failed),
{
    serial.write_str("[failed]\n\n");
    serial.write_str("Error: ");
    serial.write_str(msg);
    serial.write_str("\n\n");
    host.signal(ExitStatus::Failed);
    proof {
        assert(old(serial).stream() + "[failed]\n\n"@ + "Error: "@ + msg@ + "\n\n"@
            =~= old(serial).stream() + ("[failed]\n\n"@ + "Error: "@ + msg@ + "\n\n"@));
    }
}

/// Route an unrecoverable fault to its sink. In the normal configuration the
/// description is rendered to the console, the serial line and the host port
/// are untouched, and the caller halts. In the test configuration the console
/// is untouched, the failure report goes over the serial channel, the host is
/// signalled `Failed`, and the caller halts as a fallback in case the exit
/// signal does not terminate the host.
pub fn route_panic(
    mode: PanicMode,
    info: &str,
    console: &mut Writer,
    serial: &mut SerialChannel,
    host: &mut HostExit,
)
    requires
        old(console).wf(),
        mode is Test ==> old(host).status() is None,
    ensures
        final(console).wf(),
        mode is Normal ==> {
            &&& final(console).same_colors(*old(console))
            &&& (final(console).grid(), final(console).col()) == model_write_chars(
                old(console).grid(),
                old(console).col(),
                info@.push('\n'),
                old(console).fg(),
                old(console).bg(),
            )
            &&& *final(serial) == *old(serial)
            &&& *final(host) == *old(host)
        },
        mode is Test ==> {
            &&& *final(console) == *old(console)
            &&& final(serial).port_spec() == old(serial).port_spec()
            &&& final(serial).stream() == old(serial).stream() + failure_report(info@)
            &&& final(host).status() == Some(ExitStatus::Failed)
        },
{
    match mode {
        PanicMode::Normal => {
            console.write_str(info);
            console.write_char('\n');
            proof {
                assert(info@.push('\n') =~= info@ + seq!['\n']);
                lemma_model_write_chars_append(
                    old(console).grid(),
                    old(console).col(),
                    info@,
                    seq!['\n'],
                    old(console).fg(),
                    old(console).bg(),
                );
                let m = model_write_chars(
                    old(console).grid(),
                    old(console).col(),
                    info@,
                    old(console).fg(),
                    old(console).bg(),
                );
                let m1 = model_write_char(m.0, m.1, '\n', old(console).fg(), old(console).bg());
                assert(seq!['\n'].skip(1) =~= Seq::<char>::empty());
                assert(model_write_chars(m.0, m.1, seq!['\n'], old(console).fg(), old(console).bg())
                    == model_write_chars(m1.0, m1.1, seq!['\n'].skip(1), old(console).fg(), old(console).bg()));
            }
        },
        PanicMode::Test => {
            report_failure(serial, host, info);
        },
    }
}

} // verus!
