//! The client side of the driver protocol: the commands that wait for the
//! next flush, and the reading of what the driver returned.

use crate::error::Error;
use crate::parcel::{i32_at, Parcel, ParcelView};
use crate::protocol::{
    payload_size_spec, BinderDriverCommandProtocol, BinderDriverReturnProtocol, TransactionFlags,
    TF_ACCEPT_FDS,
};
use crate::transaction::{descriptor_of_wire, descriptor_wire, BinderTransactionData};
use crate::wire::{bits_of_i32, encode_i32, encode_u32, encode_u64, from_le32, le32, le64};
use vstd::prelude::*;

verus! {

/// The target of a reply: no handle at all.
pub const REPLY_TARGET: u32 = 0xffff_ffff;

/// The number of inbound bytes that one flush asks for.
pub const READ_BUFFER_SIZE: usize = 256;

/// The default maximum number of threads that the driver may ask for.
pub const DEFAULT_MAX_BINDER_THREADS: u32 = 15;

/// The size of the mapping that the driver delivers payloads through: one
/// mebibyte less two pages.
pub const BINDER_VM_SIZE: usize = 1040384;

/// The bytes of a command that names a handle: opcode and handle.
pub open spec fn handle_command(command: BinderDriverCommandProtocol, handle: i32) -> Seq<u8> {
    le32(command.opcode_spec()) + le32(bits_of_i32(handle))
}

/// The bytes of a command that carries a descriptor: opcode and descriptor.
pub open spec fn descriptor_command(
    command: BinderDriverCommandProtocol,
    descriptor: BinderTransactionData,
) -> Seq<u8> {
    le32(command.opcode_spec()) + descriptor_wire(descriptor)
}

/// The bytes of a command that answers a reference-count demand: the
/// opcode and the sixteen bytes that came with the demand.
pub open spec fn done_command(command: BinderDriverCommandProtocol, payload: Seq<u8>) -> Seq<u8> {
    le32(command.opcode_spec()) + payload
}

/// The descriptor of an outgoing transaction or reply. A payload or an
/// offsets table that is empty has the null address.
pub open spec fn outgoing(
    target: u32,
    code: u32,
    flags: u32,
    data: ParcelView,
    data_address: u64,
    offsets_address: u64,
) -> BinderTransactionData {
    BinderTransactionData {
        target,
        cookie: 0,
        code,
        flags,
        sender_pid: 0,
        sender_euid: 0,
        data_size: data.data.len() as u64,
        offset_size: (data.offsets.len() * word_size()) as u64,
        data: if data.data.len() != 0 {
            data_address
        } else {
            0
        },
        offsets: if data.offsets.len() != 0 {
            offsets_address
        } else {
            0
        },
    }
}

/// The number of bytes of one entry of an offsets table: those of a machine word.
pub open spec fn word_size() -> int {
    usize::BITS as int / 8
}

/// What one returned command comes to.
pub enum Step {
    /// Reading goes on at `next`, after `answer` was queued for the next flush.
    Continue { next: nat, answer: Seq<u8> },
    /// Reading stops at `end` with `result`.
    Stop { result: Result<Option<BinderTransactionData>, Error>, end: nat },
}

/// The returned command at the cursor of `p`, with `room` bytes left in the
/// queue of pending commands.
///
/// A transaction or a reply stops the reading with its descriptor. A dead
/// or failed reply, and an error with its number, stop it with that
/// failure. A demand to count a reference up is answered: the matching
/// "done" command is queued with the sixteen bytes of the demand. Every
/// other known command is stepped over with its payload, an unknown opcode
/// without one. A command that is cut short is a deserialization error; an
/// answer that the queue has no room for is an i/o error.
#[verifier::opaque]
pub open spec fn step(p: ParcelView, room: int) -> Step {
    let q = p.skip(4);
    if !p.has(4) {
        Step::Stop { result: Err(Error::DeserializationError), end: p.position }
    } else {
        match BinderDriverReturnProtocol::of_opcode(from_le32(p.peek(4))) {
            None => Step::Continue { next: q.position, answer: Seq::empty() },
            Some(BinderDriverReturnProtocol::DeadReply) => Step::Stop {
                result: Err(Error::DeadReply),
                end: q.position,
            },
            Some(BinderDriverReturnProtocol::FailedReply) => Step::Stop {
                result: Err(Error::FailedReply),
                end: q.position,
            },
            Some(BinderDriverReturnProtocol::Error) => if q.has(4) {
                Step::Stop { result: Err(Error::DriverError(i32_at(q))), end: q.position + 4 }
            } else {
                Step::Stop { result: Err(Error::DeserializationError), end: q.position }
            },
            Some(BinderDriverReturnProtocol::Transaction) => descriptor_step(q),
            Some(BinderDriverReturnProtocol::Reply) => descriptor_step(q),
            Some(BinderDriverReturnProtocol::IncRefs) => demand_step(
                q,
                room,
                BinderDriverCommandProtocol::IncRefsDone,
            ),
            Some(BinderDriverReturnProtocol::Acquire) => demand_step(
                q,
                room,
                BinderDriverCommandProtocol::AcquireDone,
            ),
            Some(other) => if q.has(payload_size_spec(other.opcode_spec()) as int) {
                Step::Continue {
                    next: q.position + payload_size_spec(other.opcode_spec()),
                    answer: Seq::empty(),
                }
            } else {
                Step::Stop { result: Err(Error::DeserializationError), end: q.position }
            },
        }
    }
}

/// A transaction or a reply whose descriptor stands at the cursor of `q`.
pub open spec fn descriptor_step(q: ParcelView) -> Step {
    if q.has(64) {
        Step::Stop { result: Ok(Some(descriptor_of_wire(q.peek(64)))), end: q.position + 64 }
    } else {
        Step::Stop { result: Err(Error::DeserializationError), end: q.position }
    }
}

/// A reference-count demand whose sixteen bytes stand at the cursor of `q`,
/// to be answered with the command `done`.
pub open spec fn demand_step(q: ParcelView, room: int, done: BinderDriverCommandProtocol) -> Step {
    if !q.has(16) {
        Step::Stop { result: Err(Error::DeserializationError), end: q.position }
    } else if room < 20 {
        Step::Stop { result: Err(Error::StdioError), end: q.position + 16 }
    } else {
        Step::Continue { next: q.position + 16, answer: done_command(done, q.peek(16)) }
    }
}

/// What draining a stream of returned commands comes to: the result, the
/// answers that were queued for the next flush, and where reading stopped.
pub struct Drained {
    pub result: Result<Option<BinderTransactionData>, Error>,
    pub answers: Seq<u8>,
    pub end: nat,
}

/// Drain the returned commands of `p` from its cursor on, with `room` bytes
/// left in the queue of pending commands: command by command, see [`step`],
/// until one stops the reading or the stream is at its end.
pub open spec fn drain(p: ParcelView, room: int) -> Drained
    decreases p.data.len() - p.position,
    via drain_terminates
{
    if p.at_end() {
        Drained { result: Ok(None), answers: Seq::empty(), end: p.position }
    } else {
        match step(p, room) {
            Step::Stop { result, end } => Drained { result, answers: Seq::empty(), end },
            Step::Continue { next, answer } => {
                let rest = drain(p.at(next), room - answer.len());
                Drained { answers: answer + rest.answers, ..rest }
            },
        }
    }
}

#[via_fn]
proof fn drain_terminates(p: ParcelView, room: int) {
    lemma_step_advances(p, room);
}

/// A command that lets the reading go on ends after the cursor and within the stream.
pub proof fn lemma_step_advances(p: ParcelView, room: int)
    ensures
        step(p, room) matches Step::Continue { next, answer } ==> p.position + 4 <= next
            <= p.data.len() && answer.len() <= 20,
{
    reveal(step);
}

/// The client's side of an open driver: the commands that wait for the next flush.
#[derive(Debug)]
pub struct Binder {
    pending_out_data: Parcel,
}

impl Binder {
    /// The bytes of the commands that wait for the next flush.
    pub closed spec fn pending(&self) -> Seq<u8> {
        self.pending_out_data@.data
    }

    /// How many more bytes the queue can take.
    pub open spec fn room(&self) -> int {
        usize::MAX - self.pending().len()
    }

    /// A client with nothing queued.
    pub fn new() -> (binder: Binder)
        ensures
            binder.pending() == Seq::<u8>::empty(),
    {
        Binder { pending_out_data: Parcel::empty() }
    }

    /// The bytes of the commands that wait for the next flush.
    pub fn pending_bytes(&self) -> (bytes: &[u8])
        ensures
            bytes@ == self.pending(),
    {
        self.pending_out_data.to_slice()
    }

    /// The number of bytes that wait for the next flush.
    pub fn pending_len(&self) -> (n: usize)
        ensures
            n == self.pending().len(),
    {
        self.pending_out_data.len()
    }

    /// Queue `bytes` if the queue has room for them.
    fn queue(&mut self, bytes: &[u8]) -> (r: Result<(), Error>)
        ensures
            queued(old(self).pending(), final(self).pending(), r, bytes@),
    {
        if bytes.len() > usize::MAX - self.pending_out_data.len() {
            return Err(Error::StdioError);
        }
        self.pending_out_data.put(bytes);
        Ok(())
    }

    /// Queue a command that names a handle.
    fn queue_handle_command(&mut self, command: BinderDriverCommandProtocol, handle: i32) -> (r:
        Result<(), Error>)
        ensures
            queued(old(self).pending(), final(self).pending(), r, handle_command(command, handle)),
    {
        let mut bytes: Vec<u8> = Vec::new();
        let opcode = encode_u32(command.opcode());
        bytes.extend_from_slice(opcode.as_slice());
        let word = encode_i32(handle);
        bytes.extend_from_slice(word.as_slice());
        assert(bytes@ =~= handle_command(command, handle));
        self.queue(bytes.as_slice())
    }

    /// Queue a command that carries a descriptor for `data`.
    fn queue_descriptor_command(
        &mut self,
        command: BinderDriverCommandProtocol,
        target: u32,
        code: u32,
        flags: u32,
        data: &Parcel,
        data_address: u64,
        offsets_address: u64,
    ) -> (r: Result<(), Error>)
        ensures
            data@.offsets.len() * word_size() <= u64::MAX ==> queued(
                old(self).pending(),
                final(self).pending(),
                r,
                descriptor_command(
                    command,
                    outgoing(target, code, flags, data@, data_address, offsets_address),
                ),
            ),
            data@.offsets.len() * word_size() > u64::MAX ==> r == Err::<(), Error>(
                Error::StdioError,
            ) && final(self).pending() == old(self).pending(),
    {
        assert(usize::BITS == 32 || usize::BITS == 64);
        let table: u128 = if usize::BITS == 32 {
            (data.offsets_len() as u128) * 4
        } else {
            (data.offsets_len() as u128) * 8
        };
        if table > u64::MAX as u128 {
            return Err(Error::StdioError);
        }
        let descriptor = BinderTransactionData {
            target,
            cookie: 0,
            code,
            flags,
            sender_pid: 0,
            sender_euid: 0,
            data_size: data.len() as u64,
            offset_size: table as u64,
            data: if !data.is_empty() {
                data_address
            } else {
                0
            },
            offsets: if data.offsets_len() != 0 {
                offsets_address
            } else {
                0
            },
        };
        let mut bytes: Vec<u8> = Vec::new();
        let opcode = encode_u32(command.opcode());
        bytes.extend_from_slice(opcode.as_slice());
        let body = descriptor.to_bytes();
        bytes.extend_from_slice(body.as_slice());
        assert(bytes@ =~= descriptor_command(command, descriptor));
        self.queue(bytes.as_slice())
    }

    /// The command that tells the driver that this thread enters the
    /// looper, in a parcel of its own: it is written at once, not queued.
    pub fn enter_looper(&self) -> (r: Result<Parcel, Error>)
        ensures
            r is Ok,
            r->Ok_0@ == ParcelView::empty().put(
                le32(BinderDriverCommandProtocol::EnterLooper.opcode_spec()),
            ),
    {
        let mut parcel_out = Parcel::empty();
        match parcel_out.write_u32(BinderDriverCommandProtocol::EnterLooper.opcode()) {
            Ok(()) => Ok(parcel_out),
            Err(e) => Err(e),
        }
    }

    /// The command that tells the driver that this thread leaves the
    /// looper, in a parcel of its own: it is written at once, not queued.
    pub fn exit_looper(&self) -> (r: Result<Parcel, Error>)
        ensures
            r is Ok,
            r->Ok_0@ == ParcelView::empty().put(
                le32(BinderDriverCommandProtocol::ExitLooper.opcode_spec()),
            ),
    {
        let mut parcel_out = Parcel::empty();
        match parcel_out.write_u32(BinderDriverCommandProtocol::ExitLooper.opcode()) {
            Ok(()) => Ok(parcel_out),
            Err(e) => Err(e),
        }
    }

    /// Increment the server side reference count of the given handle. The
    /// request is queued, and performed with the next flush.
    pub fn add_ref(&mut self, handle: i32) -> (r: Result<(), Error>)
        ensures
            queued(
                old(self).pending(),
                final(self).pending(),
                r,
                handle_command(BinderDriverCommandProtocol::IncRefs, handle),
            ),
    {
        self.queue_handle_command(BinderDriverCommandProtocol::IncRefs, handle)
    }

    /// Decrement the server side reference count of the given handle. The
    /// request is queued, and performed with the next flush.
    pub fn dec_ref(&mut self, handle: i32) -> (r: Result<(), Error>)
        ensures
            queued(
                old(self).pending(),
                final(self).pending(),
                r,
                handle_command(BinderDriverCommandProtocol::DecRefs, handle),
            ),
    {
        self.queue_handle_command(BinderDriverCommandProtocol::DecRefs, handle)
    }

    /// Acquire the server side resource for the given handle. The request
    /// is queued, and performed with the next flush.
    pub fn acquire(&mut self, handle: i32) -> (r: Result<(), Error>)
        ensures
            queued(
                old(self).pending(),
                final(self).pending(),
                r,
                handle_command(BinderDriverCommandProtocol::Acquire, handle),
            ),
    {
        self.queue_handle_command(BinderDriverCommandProtocol::Acquire, handle)
    }

    /// Release the server side resource for the given handle. The request
    /// is queued, and performed with the next flush.
    pub fn release(&mut self, handle: i32) -> (r: Result<(), Error>)
        ensures
            queued(
                old(self).pending(),
                final(self).pending(),
                r,
                handle_command(BinderDriverCommandProtocol::Release, handle),
            ),
    {
        self.queue_handle_command(BinderDriverCommandProtocol::Release, handle)
    }

    /// Hand the inbound buffer at address `buffer` back to the driver. The
    /// request is queued, and performed with the next flush.
    pub fn free_buffer(&mut self, buffer: u64) -> (r: Result<(), Error>)
        ensures
            queued(
                old(self).pending(),
                final(self).pending(),
                r,
                le32(BinderDriverCommandProtocol::FreeBuffer.opcode_spec()) + le64(buffer),
            ),
    {
        let mut bytes: Vec<u8> = Vec::new();
        let opcode = encode_u32(BinderDriverCommandProtocol::FreeBuffer.opcode());
        bytes.extend_from_slice(opcode.as_slice());
        let address = encode_u64(buffer);
        bytes.extend_from_slice(address.as_slice());
        assert(bytes@ =~= le32(BinderDriverCommandProtocol::FreeBuffer.opcode_spec()) + le64(
            buffer,
        ));
        self.queue(bytes.as_slice())
    }

    /// Queue a call of `code` on the object behind `handle`, with the
    /// payload `data`, whose bytes lie at `data_address` and whose offsets
    /// table lies at `offsets_address`. The caller's flags go out with
    /// "accept file descriptors" added. What follows is a flush.
    pub fn transact(
        &mut self,
        handle: i32,
        code: u32,
        flags: TransactionFlags,
        data: &Parcel,
        data_address: u64,
        offsets_address: u64,
    ) -> (r: Result<(), Error>)
        ensures
            data@.offsets.len() * word_size() <= u64::MAX ==> queued(
                old(self).pending(),
                final(self).pending(),
                r,
                descriptor_command(
                    BinderDriverCommandProtocol::Transaction,
                    outgoing(
                        bits_of_i32(handle),
                        code,
                        TF_ACCEPT_FDS | flags.bits,
                        data@,
                        data_address,
                        offsets_address,
                    ),
                ),
            ),
            data@.offsets.len() * word_size() > u64::MAX ==> r == Err::<(), Error>(
                Error::StdioError,
            ) && final(self).pending() == old(self).pending(),
    {
        let target: u32 = if handle >= 0 {
            handle as u32
        } else {
            (handle as i64 + 0x1_0000_0000) as u32
        };
        self.queue_descriptor_command(
            BinderDriverCommandProtocol::Transaction,
            target,
            code,
            TF_ACCEPT_FDS | flags.bits,
            data,
            data_address,
            offsets_address,
        )
    }

    /// Queue the reply `data` to the transaction that is being served, with
    /// the flags as they are. What follows is a flush.
    pub fn reply(
        &mut self,
        data: &Parcel,
        flags: TransactionFlags,
        data_address: u64,
        offsets_address: u64,
    ) -> (r: Result<(), Error>)
        ensures
            data@.offsets.len() * word_size() <= u64::MAX ==> queued(
                old(self).pending(),
                final(self).pending(),
                r,
                descriptor_command(
                    BinderDriverCommandProtocol::Reply,
                    outgoing(REPLY_TARGET, 0, flags.bits, data@, data_address, offsets_address),
                ),
            ),
            data@.offsets.len() * word_size() > u64::MAX ==> r == Err::<(), Error>(
                Error::StdioError,
            ) && final(self).pending() == old(self).pending(),
    {
        self.queue_descriptor_command(
            BinderDriverCommandProtocol::Reply,
            REPLY_TARGET,
            0,
            flags.bits,
            data,
            data_address,
            offsets_address,
        )
    }

    /// The first half of a flush: the bytes of `parcel_out` join the queue,
    /// which then holds everything that is to be written.
    pub fn begin_write_read(&mut self, parcel_out: &Parcel) -> (r: Result<(), Error>)
        ensures
            queued(old(self).pending(), final(self).pending(), r, parcel_out@.data),
    {
        self.queue(parcel_out.to_slice())
    }

    /// The second half of a flush, after the queue was written and
    /// `inbound` was read: the queue is emptied, and the returned commands
    /// are drained.
    pub fn finish_write_read(&mut self, inbound: &[u8]) -> (r: Result<
        Option<BinderTransactionData>,
        Error,
    >)
        ensures
            r == drain(
                ParcelView { data: inbound@, position: 0, offsets: Seq::empty() },
                usize::MAX as int,
            ).result,
            final(self).pending() == drain(
                ParcelView { data: inbound@, position: 0, offsets: Seq::empty() },
                usize::MAX as int,
            ).answers,
    {
        self.pending_out_data.reset();
        let mut parcel_in = Parcel::from_slice(inbound);
        proof {
            assert(Seq::<u8>::empty() + drain(parcel_in@, usize::MAX as int).answers =~= drain(
                parcel_in@,
                usize::MAX as int,
            ).answers);
        }
        self.process_incoming(&mut parcel_in)
    }

    /// Drain the returned commands of `parcel_in` from its cursor on: see [`drain`].
    pub fn process_incoming(&mut self, parcel_in: &mut Parcel) -> (r: Result<
        Option<BinderTransactionData>,
        Error,
    >)
        ensures
            r == drain(old(parcel_in)@, old(self).room()).result,
            final(parcel_in)@ == old(parcel_in)@.at(drain(old(parcel_in)@, old(self).room()).end),
            final(self).pending() == old(self).pending() + drain(
                old(parcel_in)@,
                old(self).room(),
            ).answers,
    {
        let ghost start = parcel_in@;
        let ghost room = self.room();
        let ghost before = self.pending();
        let ghost mut answered: Seq<u8> = Seq::empty();
        proof {
            assert(answered + drain(start, room).answers =~= drain(start, room).answers);
            assert(before + answered =~= before);
        }
        while parcel_in.has_unread_data()
            invariant
                start == old(parcel_in)@,
                room == old(self).room(),
                before == old(self).pending(),
                parcel_in@ == start.at(parcel_in@.position),
                self.pending() == before + answered,
                drain(start, room).result == drain(parcel_in@, self.room()).result,
                drain(start, room).end == drain(parcel_in@, self.room()).end,
                drain(start, room).answers == answered + drain(parcel_in@, self.room()).answers,
            decreases parcel_in@.data.len() - parcel_in@.position,
        {
            let ghost here = parcel_in@;
            let ghost left = self.room();
            proof {
                lemma_step_advances(here, left);
            }
            match self.next_command(parcel_in) {
                Some(result) => {
                    proof {
                        assert(answered + Seq::<u8>::empty() =~= answered);
                    }
                    return result;
                },
                None => {
                    proof {
                        let answer = step(here, left)->answer;
                        let rest = drain(parcel_in@, self.room()).answers;
                        assert(answered + (answer + rest) =~= (answered + answer) + rest);
                        assert(before + answered + answer =~= before + (answered + answer));
                        answered = answered + answer;
                    }
                },
            }
        }
        proof {
            assert(answered + Seq::<u8>::empty() =~= answered);
        }
        Ok(None)
    }

    /// Handle the returned command at the cursor of `parcel_in`: the
    /// result where it stops the reading, `None` where the reading goes on.
    fn next_command(&mut self, parcel_in: &mut Parcel) -> (r: Option<
        Result<Option<BinderTransactionData>, Error>,
    >)
        ensures
            match step(old(parcel_in)@, old(self).room()) {
                Step::Stop { result, end } => r == Some(result) && final(parcel_in)@ == old(
                    parcel_in,
                )@.at(end) && final(self).pending() == old(self).pending(),
                Step::Continue { next, answer } => r is None && final(parcel_in)@ == old(
                    parcel_in,
                )@.at(next) && final(self).pending() == old(self).pending() + answer,
            },
    {
        proof {
            reveal(step);
            assert(self.pending() + Seq::<u8>::empty() =~= self.pending());
        }
        let code: u32 = match parcel_in.read_u32() {
            Ok(code) => code,
            Err(e) => {
                return Some(Err(e));
            },
        };
        match BinderDriverReturnProtocol::from_u32(code) {
            None => None,
            Some(BinderDriverReturnProtocol::DeadReply) => Some(Err(Error::DeadReply)),
            Some(BinderDriverReturnProtocol::FailedReply) => Some(Err(Error::FailedReply)),
            Some(BinderDriverReturnProtocol::Error) => match parcel_in.read_i32() {
                Ok(number) => Some(Err(Error::DriverError(number))),
                Err(e) => Some(Err(e)),
            },
            Some(BinderDriverReturnProtocol::Transaction) => Some(read_descriptor(parcel_in)),
            Some(BinderDriverReturnProtocol::Reply) => Some(read_descriptor(parcel_in)),
            Some(BinderDriverReturnProtocol::IncRefs) => self.answer(
                parcel_in,
                BinderDriverCommandProtocol::IncRefsDone,
            ),
            Some(BinderDriverReturnProtocol::Acquire) => self.answer(
                parcel_in,
                BinderDriverCommandProtocol::AcquireDone,
            ),
            Some(other) => match parcel_in.read_without_alignment(other.payload_len()) {
                Ok(_) => None,
                Err(e) => Some(Err(e)),
            },
        }
    }

    /// Read the sixteen bytes of a reference-count demand and queue the
    /// command `done` with them.
    fn answer(&mut self, parcel_in: &mut Parcel, done: BinderDriverCommandProtocol) -> (r: Option<
        Result<Option<BinderTransactionData>, Error>,
    >)
        ensures
            match demand_step(old(parcel_in)@, old(self).room(), done) {
                Step::Stop { result, end } => r == Some(result) && final(parcel_in)@ == old(
                    parcel_in,
                )@.at(end) && final(self).pending() == old(self).pending(),
                Step::Continue { next, answer } => r is None && final(parcel_in)@ == old(
                    parcel_in,
                )@.at(next) && final(self).pending() == old(self).pending() + answer,
            },
    {
        let payload = match parcel_in.read_without_alignment(16) {
            Ok(payload) => payload,
            Err(e) => {
                return Some(Err(e));
            },
        };
        let mut bytes: Vec<u8> = Vec::new();
        let opcode = encode_u32(done.opcode());
        bytes.extend_from_slice(opcode.as_slice());
        bytes.extend_from_slice(payload.as_slice());
        assert(bytes@ =~= done_command(done, payload@));
        match self.queue(bytes.as_slice()) {
            Ok(()) => None,
            Err(e) => Some(Err(e)),
        }
    }
}

/// Read the descriptor of a transaction or a reply.
fn read_descriptor(parcel_in: &mut Parcel) -> (r: Result<Option<BinderTransactionData>, Error>)
    ensures
        match descriptor_step(old(parcel_in)@) {
            Step::Stop { result, end } => r == result && final(parcel_in)@ == old(parcel_in)@.at(
                end,
            ),
            Step::Continue { next, answer } => false,
        },
{
    match parcel_in.read_transaction_data() {
        Ok(descriptor) => Ok(Some(descriptor)),
        Err(e) => Err(e),
    }
}

/// How queueing `bytes` relates the queue before and after to the result:
/// with room for them they are appended; without, the call fails with an
/// i/o error and the queue is as before.
pub open spec fn queued(before: Seq<u8>, after: Seq<u8>, r: Result<(), Error>, bytes: Seq<u8>) -> bool {
    if before.len() + bytes.len() <= usize::MAX {
        r is Ok && after == before + bytes
    } else {
        r == Err::<(), Error>(Error::StdioError) && after == before
    }
}

} // verus!
