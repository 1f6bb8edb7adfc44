//! The coordinator of the three packet-number spaces and the key halves of
//! the data space: which keys are available and when earlier spaces are
//! discarded.

use vstd::prelude::*;
use crate::param::Role;
use crate::space::Space;

verus! {

/// The spaces of a connection and the state of their keys.
#[derive(Debug)]
pub struct Spaces<D> {
    pub role: Role,
    /// `None` once the Initial keys are discarded.
    pub initial: Option<Space<D>>,
    /// `None` once the Handshake keys are discarded.
    pub handshake: Option<Space<D>>,
    pub data: Space<D>,
    pub zero_rtt_keys: bool,
    /// Set once the 0-RTT keys are discarded; they never come back.
    pub zero_rtt_discarded: bool,
    pub one_rtt_keys: bool,
    pub handshake_confirmed: bool,
}

impl<D> Spaces<D> {
    pub open spec fn wf(&self) -> bool {
        &&& (self.initial matches Some(s) ==> s.wf())
        &&& (self.handshake matches Some(s) ==> s.wf())
        &&& self.data.wf()
        &&& self.data.reliable
        &&& (self.zero_rtt_discarded ==> !self.zero_rtt_keys)
        &&& (self.handshake_confirmed ==> self.handshake is None)
    }

    /// Every space present, no keys beyond Initial and Handshake.
    pub fn new(role: Role) -> (r: Spaces<D>)
        ensures
            r.wf(),
            r.role == role,
            r.initial is Some && r.handshake is Some,
            !r.zero_rtt_keys && !r.one_rtt_keys && !r.handshake_confirmed && !r.zero_rtt_discarded,
    {
        Spaces {
            role,
            initial: Some(Space::new(true)),
            handshake: Some(Space::new(true)),
            data: Space::new(true),
            zero_rtt_keys: false,
            zero_rtt_discarded: false,
            one_rtt_keys: false,
            handshake_confirmed: false,
        }
    }

    /// The 0-RTT keys became available (a client with a resumption secret
    /// after its ClientHello, a server after reading the early secret);
    /// keys already discarded stay so.
    pub fn on_0rtt_keys_ready(&mut self)
        requires
            old(self).wf(),
        ensures
            final(self).wf(),
            final(self).zero_rtt_keys == !old(self).zero_rtt_discarded,
            final(self).zero_rtt_discarded == old(self).zero_rtt_discarded,
            final(self).initial == old(self).initial,
            final(self).handshake == old(self).handshake,
            final(self).one_rtt_keys == old(self).one_rtt_keys,
            final(self).handshake_confirmed == old(self).handshake_confirmed,
            final(self).data == old(self).data,
            final(self).role == old(self).role,
    {
        if !self.zero_rtt_discarded {
            self.zero_rtt_keys = true;
        }
    }

    /// A Handshake packet was decrypted or sent: the Initial space is
    /// discarded with its sent packets and pending work.
    pub fn on_handshake_packet(&mut self)
        requires
            old(self).wf(),
        ensures
            final(self).wf(),
            final(self).initial is None,
            final(self).handshake == old(self).handshake,
            final(self).zero_rtt_keys == old(self).zero_rtt_keys,
            final(self).zero_rtt_discarded == old(self).zero_rtt_discarded,
            final(self).one_rtt_keys == old(self).one_rtt_keys,
            final(self).handshake_confirmed == old(self).handshake_confirmed,
            final(self).data == old(self).data,
            final(self).role == old(self).role,
    {
        self.initial = None;
    }

    /// The 1-RTT keys are installed; a server discards its 0-RTT keys then.
    pub fn on_1rtt_keys_installed(&mut self)
        requires
            old(self).wf(),
        ensures
            final(self).wf(),
            final(self).one_rtt_keys,
            old(self).role == Role::Server ==> !final(self).zero_rtt_keys && final(self).zero_rtt_discarded,
            old(self).role == Role::Client ==> final(self).zero_rtt_keys == old(self).zero_rtt_keys
                && final(self).zero_rtt_discarded == old(self).zero_rtt_discarded,
            final(self).initial == old(self).initial,
            final(self).handshake == old(self).handshake,
            final(self).handshake_confirmed == old(self).handshake_confirmed,
            final(self).data == old(self).data,
            final(self).role == old(self).role,
    {
        self.one_rtt_keys = true;
        if self.role == Role::Server {
            self.zero_rtt_keys = false;
            self.zero_rtt_discarded = true;
        }
    }

    /// The handshake is confirmed (a client received HANDSHAKE_DONE, a
    /// server received the first acknowledgement of a 1-RTT packet): the
    /// Handshake space is discarded, a client discards its 0-RTT keys, and
    /// the data space learns it for ACK delays.
    pub fn on_handshake_confirmed(&mut self)
        requires
            old(self).wf(),
        ensures
            final(self).wf(),
            final(self).handshake_confirmed,
            final(self).handshake is None,
            final(self).data.handshake_confirmed,
            old(self).role == Role::Client ==> !final(self).zero_rtt_keys && final(self).zero_rtt_discarded,
            old(self).role == Role::Server ==> final(self).zero_rtt_keys == old(self).zero_rtt_keys
                && final(self).zero_rtt_discarded == old(self).zero_rtt_discarded,
            final(self).initial == old(self).initial,
            final(self).one_rtt_keys == old(self).one_rtt_keys,
            final(self).role == old(self).role,
            final(self).data.sent@ == old(self).data.sent@,
            final(self).data.frames@ == old(self).data.frames@,
            final(self).data.rcvd == old(self).data.rcvd,
    {
        self.handshake = None;
        self.handshake_confirmed = true;
        self.data.set_handshake_confirmed();
        if self.role == Role::Client {
            self.zero_rtt_keys = false;
            self.zero_rtt_discarded = true;
        }
    }
}

} // verus!
