//! The serial diagnostic channel: a UART-style port whose observable state is
//! the ordered stream of characters pushed onto the line. The channel stays
//! usable even if the display subsystem is never initialized, so it carries
//! the test-result reporting. The physical port store itself is a direct,
//! unbuffered side effect performed by the surrounding program; this type
//! owns the port number and the text queued for the line, in order.

use vstd::prelude::*;

verus! {

/// The conventional port number of the first UART on the reference hardware.
pub const SERIAL_PORT: u16 = 0x3F8;

/// One serial channel: the fixed hardware port it drives and the characters
/// transmitted so far, oldest first.
pub struct SerialChannel {
    port: u16,
    transmitted: Vec<char>,
}

impl SerialChannel {
    /// The characters sent over the line so far, in order.
    pub closed spec fn stream(self) -> Seq<char> {
        self.transmitted@
    }

    /// The hardware port this channel drives.
    pub closed spec fn port_spec(self) -> u16 {
        self.port
    }

    /// A fresh channel on the given port with nothing transmitted yet.
    pub fn new(port: u16) -> (s: SerialChannel)
        ensures
            s.port_spec() == port,
            s.stream() == Seq::<char>::empty(),
    {
        SerialChannel { port, transmitted: Vec::new() }
    }

    /// Send one character.
    pub fn write_char(&mut self, c: char)
        ensures
            final(self).port_spec() == old(self).port_spec(),
            final(self).stream() == old(self).stream().push(c),
    {
        self.transmitted.push(c);
    }

    /// Send every character of `s`, in order, with no buffering and no
    /// backpressure: the port is assumed always ready.
    pub fn write_str(&mut self, s: &str)
        ensures
            final(self).port_spec() == old(self).port_spec(),
            final(self).stream() == old(self).stream() + s@,
    {
        let n = s.unicode_len();
        let mut i: usize = 0;
        while i < n
            invariant
                i <= n,
                n == s@.len(),
                self.port_spec() == old(self).port_spec(),
                self.stream() == old(self).stream() + s@.take(i as int),
            decreases n - i,
        {
            let c = s.get_char(i);
            self.write_char(c);
            proof {
                assert(s@.take(i as int).push(s@[i as int]) =~= s@.take(i as int + 1));
                assert(old(self).stream() + s@.take(i as int + 1)
                    =~= (old(self).stream() + s@.take(i as int)).push(s@[i as int]));
            }
            i = i + 1;
        }
        proof {
            assert(s@.take(n as int) =~= s@);
        }
    }

    /// Send a sequence of characters, in order.
    pub fn write_chars(&mut self, cs: &Vec<char>)
        ensures
            final(self).port_spec() == old(self).port_spec(),
            final(self).stream() == old(self).stream() + cs@,
    {
        let n = cs.len();
        let mut i: usize = 0;
        while i < n
            invariant
                i <= n,
                n == cs@.len(),
                self.port_spec() == old(self).port_spec(),
                self.stream() == old(self).stream() + cs@.take(i as int),
            decreases n - i,
        {
            let c = cs[i];
            self.write_char(c);
            proof {
                assert(cs@.take(i as int).push(cs@[i as int]) =~= cs@.take(i as int + 1));
                assert(old(self).stream() + cs@.take(i as int + 1)
                    =~= (old(self).stream() + cs@.take(i as int)).push(cs@[i as int]));
            }
            i = i + 1;
        }
        proof {
            assert(cs@.take(n as int) =~= cs@);
        }
    }

    /// The transmitted characters, oldest first, for the program that drains
    /// them onto the physical line or for an external observer.
    pub fn transmitted(&self) -> (r: &Vec<char>)
        ensures
            r@ == self.stream(),
    {
        &self.transmitted
    }
}

} // verus!
