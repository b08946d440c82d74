//! The raw network packet.

use crate::error::PacketError;
use vstd::prelude::*;

verus! {

/// A handle on a message buffer of the environment: the buffer's address,
/// zero where there is none.
#[derive(Clone, Copy, Debug, PartialEq, Eq, Structural)]
pub struct MBuf {
    pub addr: usize,
}

impl MBuf {
    /// Whether the handle stands for no buffer.
    pub open spec fn null(self) -> bool {
        self.addr == 0
    }

    /// Whether the handle stands for no buffer.
    pub fn is_null(&self) -> (null: bool)
        ensures
            null == self.null(),
    {
        self.addr == 0
    }
}

/// The raw network packet
///
/// Simply a wrapper around the underlying buffer with packet semantic
#[derive(Debug)]
pub struct RawPacket {
    mbuf: MBuf,
}

impl View for RawPacket {
    type V = MBuf;

    closed spec fn view(&self) -> MBuf {
        self.mbuf
    }
}

impl RawPacket {
    /// Creates a new packet on the buffer that the environment has just
    /// allocated for it. A null handle means that it had none to give.
    pub fn new(allocated: MBuf) -> (packet: Result<RawPacket, PacketError>)
        ensures
            match packet {
                Ok(p) => !allocated.null() && p@ == allocated,
                Err(e) => allocated.null() && e == PacketError::FailedAllocation,
            },
    {
        if allocated.is_null() {
            Err(PacketError::FailedAllocation)
        } else {
            Ok(RawPacket { mbuf: allocated })
        }
    }

    /// Creates a new packet from a MBuf
    pub fn from_mbuf(mbuf: MBuf) -> (packet: RawPacket)
        ensures
            packet@ == mbuf,
    {
        RawPacket { mbuf }
    }

    /// The packet that this packet is carried in: a raw packet is its own
    /// envelope.
    pub fn envelope(&self) -> (envelope: &RawPacket)
        ensures
            envelope@ == self@,
    {
        self
    }

    /// The underlying buffer.
    pub fn mbuf(&self) -> (mbuf: MBuf)
        ensures
            mbuf == self@,
    {
        self.mbuf
    }

    /// Where the packet's header begins in the buffer: at the very start.
    pub fn offset(&self) -> (offset: usize)
        ensures
            offset == 0,
    {
        0
    }

    /// The length of the packet's header: a raw packet has none.
    pub fn header_len(&self) -> (len: usize)
        ensures
            len == 0,
    {
        0
    }

    /// Reads the envelope as a raw packet, which it is.
    pub fn do_parse(envelope: RawPacket) -> (packet: Result<RawPacket, PacketError>)
        ensures
            packet is Ok,
            packet.unwrap()@ == envelope@,
    {
        Ok(envelope)
    }

    /// Adds a raw packet in front of the envelope's payload, which changes
    /// nothing.
    pub fn do_push(envelope: RawPacket) -> (packet: Result<RawPacket, PacketError>)
        ensures
            packet is Ok,
            packet.unwrap()@ == envelope@,
    {
        Ok(envelope)
    }

    /// Takes the raw packet's header away, which changes nothing.
    pub fn remove(self) -> (envelope: Result<RawPacket, PacketError>)
        ensures
            envelope is Ok,
            envelope.unwrap()@ == self@,
    {
        Ok(self)
    }

    /// Passes a change of the packet on to its envelope; there is nothing to
    /// pass on.
    pub fn cascade(&self) {
    }

    /// Gives the envelope back.
    pub fn deparse(self) -> (envelope: RawPacket)
        ensures
            envelope@ == self@,
    {
        self
    }
}

} // verus!
