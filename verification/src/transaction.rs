//! The records that are handed to the driver: the transaction descriptor,
//! the write/read control block, and the protocol version.

use crate::error::Error;
use crate::parcel::{lemma_pad4, read_as, wrote, zeros, Parcel};
use crate::protocol::{TransactionFlags, TF_ALL};
use crate::wire::{
    decode_u32, decode_u64, encode_u32, encode_u64, from_le32, from_le64, le32, le64,
    lemma_le_round_trip,
};
use vstd::prelude::*;
use vstd::slice::slice_subrange;

verus! {

/// The number of bytes of a transaction descriptor.
pub const TRANSACTION_DATA_SIZE: usize = 64;

/// The protocol version that the driver reports.
#[derive(Debug, Clone, Copy, PartialEq, Eq, Structural)]
pub struct BinderVersion {
    pub protocol_version: i32,
}

/// The control block of one flush-and-drain: where the outbound bytes lie
/// and how many there are, where inbound bytes may go and how many fit, and
/// how much of each the driver has consumed. Addresses are plain numbers.
#[derive(Debug, Clone, Copy, PartialEq, Eq, Structural)]
pub struct BinderWriteRead {
    write_size: usize,
    write_consumed: usize,
    write_buffer: usize,
    read_size: usize,
    read_consumed: usize,
    read_buffer: usize,
}

impl BinderWriteRead {
    /// The control block for writing the `write_size` bytes at address
    /// `write_buffer`, and for reading up to `read_capacity` bytes to
    /// address `read_buffer` if `with_read` is set, none otherwise. Nothing
    /// is consumed yet.
    pub fn new(
        write_size: usize,
        write_buffer: usize,
        with_read: bool,
        read_capacity: usize,
        read_buffer: usize,
    ) -> (block: BinderWriteRead)
        ensures
            block.write_size() == write_size,
            block.write_buffer() == write_buffer,
            block.write_consumed() == 0,
            block.read_size() == (if with_read {
                read_capacity
            } else {
                0
            }),
            block.read_buffer() == read_buffer,
            block.read_consumed() == 0,
    {
        BinderWriteRead {
            write_size,
            write_consumed: 0,
            write_buffer,
            read_size: if with_read {
                read_capacity
            } else {
                0
            },
            read_consumed: 0,
            read_buffer,
        }
    }

    /// The number of outbound bytes.
    #[verifier::when_used_as_spec(spec_write_size)]
    pub fn write_size(&self) -> (n: usize)
        ensures
            n == self.spec_write_size(),
    {
        self.write_size
    }

    /// The number of outbound bytes.
    pub closed spec fn spec_write_size(&self) -> usize {
        self.write_size
    }

    /// How many outbound bytes the driver has taken.
    #[verifier::when_used_as_spec(spec_write_consumed)]
    pub fn write_consumed(&self) -> (n: usize)
        ensures
            n == self.spec_write_consumed(),
    {
        self.write_consumed
    }

    /// How many outbound bytes the driver has taken.
    pub closed spec fn spec_write_consumed(&self) -> usize {
        self.write_consumed
    }

    /// The room for inbound bytes.
    #[verifier::when_used_as_spec(spec_read_size)]
    pub fn read_size(&self) -> (n: usize)
        ensures
            n == self.spec_read_size(),
    {
        self.read_size
    }

    /// The room for inbound bytes.
    pub closed spec fn spec_read_size(&self) -> usize {
        self.read_size
    }

    /// How many inbound bytes the driver has delivered.
    #[verifier::when_used_as_spec(spec_read_consumed)]
    pub fn read_consumed(&self) -> (n: usize)
        ensures
            n == self.spec_read_consumed(),
    {
        self.read_consumed
    }

    /// How many inbound bytes the driver has delivered.
    pub closed spec fn spec_read_consumed(&self) -> usize {
        self.read_consumed
    }

    /// The address of the outbound bytes.
    #[verifier::when_used_as_spec(spec_write_buffer)]
    pub fn write_buffer(&self) -> (address: usize)
        ensures
            address == self.spec_write_buffer(),
    {
        self.write_buffer
    }

    /// The address of the outbound bytes.
    pub closed spec fn spec_write_buffer(&self) -> usize {
        self.write_buffer
    }

    /// The address of the room for inbound bytes.
    #[verifier::when_used_as_spec(spec_read_buffer)]
    pub fn read_buffer(&self) -> (address: usize)
        ensures
            address == self.spec_read_buffer(),
    {
        self.read_buffer
    }

    /// The address of the room for inbound bytes.
    pub closed spec fn spec_read_buffer(&self) -> usize {
        self.read_buffer
    }

    /// The control block after the driver has reported what it consumed.
    pub fn consumed(self, write_consumed: usize, read_consumed: usize) -> (block: BinderWriteRead)
        ensures
            block.write_size() == self.write_size(),
            block.write_buffer() == self.write_buffer(),
            block.read_size() == self.read_size(),
            block.read_buffer() == self.read_buffer(),
            block.write_consumed() == write_consumed,
            block.read_consumed() == read_consumed,
    {
        BinderWriteRead { write_consumed, read_consumed, ..self }
    }
}

/// The descriptor of a transaction: whom it is for, what it asks, and where
/// its payload and the offsets table of the payload lie.
#[derive(Debug, Clone, Copy, PartialEq, Eq, Structural)]
pub struct BinderTransactionData {
    pub target: u32,
    pub cookie: u64,
    pub code: u32,
    pub flags: u32,
    pub sender_pid: u32,
    pub sender_euid: u32,
    pub data_size: u64,
    pub offset_size: u64,
    pub data: u64,
    pub offsets: u64,
}

/// The 64 bytes of a descriptor: the target in the first half of an
/// eight-byte slot whose second half is zero, then the other fields in
/// order, each little-endian.
pub open spec fn descriptor_wire(d: BinderTransactionData) -> Seq<u8> {
    le32(d.target) + zeros(4) + le64(d.cookie) + le32(d.code) + le32(d.flags) + le32(d.sender_pid)
        + le32(d.sender_euid) + le64(d.data_size) + le64(d.offset_size) + le64(d.data) + le64(
        d.offsets,
    )
}

/// The descriptor that the first 64 bytes of `b` hold.
pub open spec fn descriptor_of_wire(b: Seq<u8>) -> BinderTransactionData {
    BinderTransactionData {
        target: from_le32(b.subrange(0, 4)),
        cookie: from_le64(b.subrange(8, 16)),
        code: from_le32(b.subrange(16, 20)),
        flags: from_le32(b.subrange(20, 24)),
        sender_pid: from_le32(b.subrange(24, 28)),
        sender_euid: from_le32(b.subrange(28, 32)),
        data_size: from_le64(b.subrange(32, 40)),
        offset_size: from_le64(b.subrange(40, 48)),
        data: from_le64(b.subrange(48, 56)),
        offsets: from_le64(b.subrange(56, 64)),
    }
}

/// The bytes of a descriptor are 64, and they hold the descriptor.
pub proof fn lemma_descriptor_round_trip(d: BinderTransactionData)
    ensures
        descriptor_wire(d).len() == 64,
        descriptor_of_wire(descriptor_wire(d)) == d,
{
    let w = descriptor_wire(d);
    lemma_le_round_trip(0, d.target, d.cookie, 0);
    lemma_le_round_trip(0, d.code, d.data_size, 0);
    lemma_le_round_trip(0, d.flags, d.offset_size, 0);
    lemma_le_round_trip(0, d.sender_pid, d.data, 0);
    lemma_le_round_trip(0, d.sender_euid, d.offsets, 0);
    assert(w.subrange(0, 4) =~= le32(d.target));
    assert(w.subrange(8, 16) =~= le64(d.cookie));
    assert(w.subrange(16, 20) =~= le32(d.code));
    assert(w.subrange(20, 24) =~= le32(d.flags));
    assert(w.subrange(24, 28) =~= le32(d.sender_pid));
    assert(w.subrange(28, 32) =~= le32(d.sender_euid));
    assert(w.subrange(32, 40) =~= le64(d.data_size));
    assert(w.subrange(40, 48) =~= le64(d.offset_size));
    assert(w.subrange(48, 56) =~= le64(d.data));
    assert(w.subrange(56, 64) =~= le64(d.offsets));
}

impl BinderTransactionData {
    /// The code of the transaction.
    pub fn code(&self) -> (code: u32)
        ensures
            code == self.code,
    {
        self.code
    }

    /// The cookie that the target registered.
    pub fn cookie(&self) -> (cookie: u64)
        ensures
            cookie == self.cookie,
    {
        self.cookie
    }

    /// The handle of the target.
    pub fn target(&self) -> (target: u32)
        ensures
            target == self.target,
    {
        self.target
    }

    /// The flags of the transaction. The flag word must hold defined flags only.
    pub fn flags(&self) -> (flags: TransactionFlags)
        requires
            self.flags <= TF_ALL,
        ensures
            flags.bits == self.flags,
    {
        TransactionFlags { bits: self.flags }
    }

    /// The 64 bytes of this descriptor.
    pub fn to_bytes(&self) -> (bytes: Vec<u8>)
        ensures
            bytes@ == descriptor_wire(*self),
    {
        let mut bytes: Vec<u8> = Vec::new();
        let target = encode_u32(self.target);
        bytes.extend_from_slice(target.as_slice());
        let gap = encode_u32(0);
        assert(gap@ =~= zeros(4));
        bytes.extend_from_slice(gap.as_slice());
        let cookie = encode_u64(self.cookie);
        bytes.extend_from_slice(cookie.as_slice());
        let code = encode_u32(self.code);
        bytes.extend_from_slice(code.as_slice());
        let flags = encode_u32(self.flags);
        bytes.extend_from_slice(flags.as_slice());
        let sender_pid = encode_u32(self.sender_pid);
        bytes.extend_from_slice(sender_pid.as_slice());
        let sender_euid = encode_u32(self.sender_euid);
        bytes.extend_from_slice(sender_euid.as_slice());
        let data_size = encode_u64(self.data_size);
        bytes.extend_from_slice(data_size.as_slice());
        let offset_size = encode_u64(self.offset_size);
        bytes.extend_from_slice(offset_size.as_slice());
        let data = encode_u64(self.data);
        bytes.extend_from_slice(data.as_slice());
        let offsets = encode_u64(self.offsets);
        bytes.extend_from_slice(offsets.as_slice());
        assert(bytes@ =~= descriptor_wire(*self));
        bytes
    }

    /// The descriptor that the first 64 bytes of `bytes` hold, or `None`
    /// where there are fewer.
    pub fn from_bytes(bytes: &[u8]) -> (r: Option<BinderTransactionData>)
        ensures
            r == (if bytes@.len() >= 64 {
                Some(descriptor_of_wire(bytes@))
            } else {
                None
            }),
    {
        if bytes.len() < 64 {
            return None;
        }
        Some(
            BinderTransactionData {
                target: decode_u32(slice_subrange(bytes, 0, 4)),
                cookie: decode_u64(slice_subrange(bytes, 8, 16)),
                code: decode_u32(slice_subrange(bytes, 16, 20)),
                flags: decode_u32(slice_subrange(bytes, 20, 24)),
                sender_pid: decode_u32(slice_subrange(bytes, 24, 28)),
                sender_euid: decode_u32(slice_subrange(bytes, 28, 32)),
                data_size: decode_u64(slice_subrange(bytes, 32, 40)),
                offset_size: decode_u64(slice_subrange(bytes, 40, 48)),
                data: decode_u64(slice_subrange(bytes, 48, 56)),
                offsets: decode_u64(slice_subrange(bytes, 56, 64)),
            },
        )
    }
}

impl Parcel {
    /// Write a transaction descriptor into the parcel.
    pub fn write_transaction_data(&mut self, data: &BinderTransactionData) -> (r: Result<
        (),
        Error,
    >)
        ensures
            wrote(old(self)@, final(self)@, r, descriptor_wire(*data)),
    {
        let bytes = data.to_bytes();
        proof {
            lemma_descriptor_round_trip(*data);
            lemma_pad4(bytes@);
            assert(bytes@ + zeros(0) =~= bytes@);
        }
        self.write(bytes.as_slice())
    }

    /// Read a transaction descriptor from the parcel.
    pub fn read_transaction_data(&mut self) -> (r: Result<BinderTransactionData, Error>)
        ensures
            read_as(
                old(self)@,
                final(self)@,
                r,
                64,
                descriptor_of_wire(old(self)@.peek(64)),
            ),
    {
        match self.read_without_alignment(TRANSACTION_DATA_SIZE) {
            Ok(bytes) => match BinderTransactionData::from_bytes(bytes.as_slice()) {
                Some(data) => Ok(data),
                None => Err(Error::DeserializationError),
            },
            Err(e) => Err(e),
        }
    }
}

} // verus!
