//! The two channels between the compute unit and its host.
use vstd::prelude::*;
use crate::bytes::append;

verus! {

/// The inbound stream and the outbound target, as the bytes that are in
/// them: what the host has written and the unit has not read yet, and what
/// the unit has written and the host has not picked up yet.
pub struct Transport {
    inbound: Vec<u8>,
    outbound: Vec<u8>,
}

/// The content of the two channels.
pub ghost struct Channels {
    pub inbound: Seq<u8>,
    pub outbound: Seq<u8>,
}

impl Channels {
    /// Two empty channels.
    pub open spec fn empty() -> Channels {
        Channels { inbound: Seq::empty(), outbound: Seq::empty() }
    }

    /// The length of the frame that one read of at most `max` bytes takes.
    pub open spec fn frame_len(self, max: nat) -> nat {
        if self.inbound.len() <= max {
            self.inbound.len()
        } else {
            max
        }
    }

    /// The frame that one read of at most `max` bytes takes: the first bytes
    /// of the inbound stream, all of them if there are no more than `max`.
    pub open spec fn frame(self, max: nat) -> Seq<u8> {
        self.inbound.take(self.frame_len(max) as int)
    }

    /// The channels after one read of at most `max` bytes.
    pub open spec fn received(self, max: nat) -> Channels {
        Channels { inbound: self.inbound.skip(self.frame_len(max) as int), ..self }
    }

    /// The channels after the unit has written `bytes`.
    pub open spec fn sent(self, bytes: Seq<u8>) -> Channels {
        Channels { outbound: self.outbound + bytes, ..self }
    }

    /// The channels after the host has written `bytes`.
    pub open spec fn fed(self, bytes: Seq<u8>) -> Channels {
        Channels { inbound: self.inbound + bytes, ..self }
    }

    /// The channels after the host has picked up the outbound bytes.
    pub open spec fn drained(self) -> Channels {
        Channels { outbound: Seq::empty(), ..self }
    }
}

impl View for Transport {
    type V = Channels;

    closed spec fn view(&self) -> Channels {
        Channels { inbound: self.inbound@, outbound: self.outbound@ }
    }
}

impl Transport {
    /// Two empty channels.
    pub fn new() -> (t: Transport)
        ensures
            t@ == Channels::empty(),
    {
        Transport { inbound: Vec::new(), outbound: Vec::new() }
    }

    /// The unit writes `bytes` to the outbound target.
    pub fn send(&mut self, bytes: &[u8])
        ensures
            final(self)@ == old(self)@.sent(bytes@),
    {
        append(&mut self.outbound, bytes);
    }

    /// The unit reads one frame of at most `max` bytes from the inbound
    /// stream.
    pub fn receive(&mut self, max: usize) -> (frame: Vec<u8>)
        ensures
            frame@ == old(self)@.frame(max as nat),
            final(self)@ == old(self)@.received(max as nat),
    {
        let n: usize = if self.inbound.len() <= max {
            self.inbound.len()
        } else {
            max
        };
        let mut frame = self.inbound.split_off(n);
        core::mem::swap(&mut self.inbound, &mut frame);
        proof {
            assert(frame@ =~= old(self)@.frame(max as nat));
            assert(self.inbound@ =~= old(self)@.received(max as nat).inbound);
        }
        frame
    }

    /// The host writes `bytes` to the inbound stream.
    pub fn feed(&mut self, bytes: &[u8])
        ensures
            final(self)@ == old(self)@.fed(bytes@),
    {
        append(&mut self.inbound, bytes);
    }

    /// How many inbound bytes have not been read yet.
    pub fn inbound_len(&self) -> (n: usize)
        ensures
            n == self@.inbound.len(),
    {
        self.inbound.len()
    }

    /// The host picks up everything in the outbound target.
    pub fn drain(&mut self) -> (bytes: Vec<u8>)
        ensures
            bytes@ == old(self)@.outbound,
            final(self)@ == old(self)@.drained(),
    {
        let mut bytes: Vec<u8> = Vec::new();
        core::mem::swap(&mut self.outbound, &mut bytes);
        bytes
    }
}

} // verus!
