//! The numbers of the driver protocol: how opcodes are built, the commands
//! a client sends, the commands the driver returns, and the transaction flags.

use vstd::prelude::*;

verus! {

/// An ioctl-style number: direction bits, payload size, type byte, sequence number.
pub open spec fn ioc(dir: u32, ty: u8, nr: u8, size: u32) -> u32 {
    (dir * 0x4000_0000 + size * 0x1_0000 + ty * 0x100 + nr) as u32
}

/// The number of a command that carries no payload.
pub open spec fn io(ty: u8, nr: u8) -> u32 {
    ioc(0, ty, nr, 0)
}

/// The number of a command whose payload of `size` bytes goes to the driver.
pub open spec fn iow(ty: u8, nr: u8, size: u32) -> u32 {
    ioc(1, ty, nr, size)
}

/// The number of a command whose payload of `size` bytes comes from the driver.
pub open spec fn ior(ty: u8, nr: u8, size: u32) -> u32 {
    ioc(2, ty, nr, size)
}

/// The payload size that an opcode carries in bits 16 to 29.
pub open spec fn payload_size_spec(opcode: u32) -> nat {
    (opcode / 0x1_0000 % 0x4000) as nat
}

/// The number of payload bytes that follow `opcode` in a command stream.
pub fn payload_size(opcode: u32) -> (size: usize)
    ensures
        size == payload_size_spec(opcode),
{
    (opcode / 0x1_0000 % 0x4000) as usize
}

/// Four bytes packed into one word, the first byte highest.
pub open spec fn pack_chars(c1: u8, c2: u8, c3: u8, c4: u8) -> u32 {
    (c1 * 0x100_0000 + c2 * 0x1_0000 + c3 * 0x100 + c4) as u32
}

/// The commands that a client sends to the driver.
#[derive(Debug, Clone, Copy, PartialEq, Eq, Structural)]
pub enum BinderDriverCommandProtocol {
    Transaction,
    Reply,
    AcquireResult,
    FreeBuffer,
    IncRefs,
    Acquire,
    Release,
    DecRefs,
    IncRefsDone,
    AcquireDone,
    AttemptAcquire,
    RegisterLooper,
    EnterLooper,
    ExitLooper,
    RequestDeathNotification,
    ClearDeathNotification,
    DeadBinderDone,
    TransactionSG,
    ReplySG,
}

impl BinderDriverCommandProtocol {
    /// The opcode of each command, built as the ioctl numbers of Linux are.
    pub open spec fn opcode_spec(self) -> u32 {
        match self {
            BinderDriverCommandProtocol::Transaction => iow('c' as u8, 0, 0x40),
            BinderDriverCommandProtocol::Reply => iow('c' as u8, 1, 0x40),
            BinderDriverCommandProtocol::AcquireResult => iow('c' as u8, 2, 0x4),
            BinderDriverCommandProtocol::FreeBuffer => iow('c' as u8, 3, 0x8),
            BinderDriverCommandProtocol::IncRefs => iow('c' as u8, 4, 0x4),
            BinderDriverCommandProtocol::Acquire => iow('c' as u8, 5, 0x4),
            BinderDriverCommandProtocol::Release => iow('c' as u8, 6, 0x4),
            BinderDriverCommandProtocol::DecRefs => iow('c' as u8, 7, 0x4),
            BinderDriverCommandProtocol::IncRefsDone => iow('c' as u8, 8, 0x10),
            BinderDriverCommandProtocol::AcquireDone => iow('c' as u8, 9, 0x10),
            BinderDriverCommandProtocol::AttemptAcquire => iow('c' as u8, 10, 0x10),
            BinderDriverCommandProtocol::RegisterLooper => io('c' as u8, 11),
            BinderDriverCommandProtocol::EnterLooper => io('c' as u8, 12),
            BinderDriverCommandProtocol::ExitLooper => io('c' as u8, 13),
            BinderDriverCommandProtocol::RequestDeathNotification => iow('c' as u8, 14, 0xc),
            BinderDriverCommandProtocol::ClearDeathNotification => iow('c' as u8, 15, 0xc),
            BinderDriverCommandProtocol::DeadBinderDone => iow('c' as u8, 16, 0x8),
            BinderDriverCommandProtocol::TransactionSG => iow('c' as u8, 17, 0x48),
            BinderDriverCommandProtocol::ReplySG => iow('c' as u8, 18, 0x48),
        }
    }

    /// The opcode of this command.
    pub fn opcode(self) -> (code: u32)
        ensures
            code == self.opcode_spec(),
    {
        match self {
            BinderDriverCommandProtocol::Transaction => 0x40406300,
            BinderDriverCommandProtocol::Reply => 0x40406301,
            BinderDriverCommandProtocol::AcquireResult => 0x40046302,
            BinderDriverCommandProtocol::FreeBuffer => 0x40086303,
            BinderDriverCommandProtocol::IncRefs => 0x40046304,
            BinderDriverCommandProtocol::Acquire => 0x40046305,
            BinderDriverCommandProtocol::Release => 0x40046306,
            BinderDriverCommandProtocol::DecRefs => 0x40046307,
            BinderDriverCommandProtocol::IncRefsDone => 0x40106308,
            BinderDriverCommandProtocol::AcquireDone => 0x40106309,
            BinderDriverCommandProtocol::AttemptAcquire => 0x4010630a,
            BinderDriverCommandProtocol::RegisterLooper => 0x0000630b,
            BinderDriverCommandProtocol::EnterLooper => 0x0000630c,
            BinderDriverCommandProtocol::ExitLooper => 0x0000630d,
            BinderDriverCommandProtocol::RequestDeathNotification => 0x400c630e,
            BinderDriverCommandProtocol::ClearDeathNotification => 0x400c630f,
            BinderDriverCommandProtocol::DeadBinderDone => 0x40086310,
            BinderDriverCommandProtocol::TransactionSG => 0x40486311,
            BinderDriverCommandProtocol::ReplySG => 0x40486312,
        }
    }

    /// The command with opcode `code`, if there is one.
    pub open spec fn of_opcode(code: u32) -> Option<BinderDriverCommandProtocol> {
        if code == BinderDriverCommandProtocol::Transaction.opcode_spec() {
            Some(BinderDriverCommandProtocol::Transaction)
        }         else if code == BinderDriverCommandProtocol::Reply.opcode_spec() {
            Some(BinderDriverCommandProtocol::Reply)
        }         else if code == BinderDriverCommandProtocol::AcquireResult.opcode_spec() {
            Some(BinderDriverCommandProtocol::AcquireResult)
        }         else if code == BinderDriverCommandProtocol::FreeBuffer.opcode_spec() {
            Some(BinderDriverCommandProtocol::FreeBuffer)
        }         else if code == BinderDriverCommandProtocol::IncRefs.opcode_spec() {
            Some(BinderDriverCommandProtocol::IncRefs)
        }         else if code == BinderDriverCommandProtocol::Acquire.opcode_spec() {
            Some(BinderDriverCommandProtocol::Acquire)
        }         else if code == BinderDriverCommandProtocol::Release.opcode_spec() {
            Some(BinderDriverCommandProtocol::Release)
        }         else if code == BinderDriverCommandProtocol::DecRefs.opcode_spec() {
            Some(BinderDriverCommandProtocol::DecRefs)
        }         else if code == BinderDriverCommandProtocol::IncRefsDone.opcode_spec() {
            Some(BinderDriverCommandProtocol::IncRefsDone)
        }         else if code == BinderDriverCommandProtocol::AcquireDone.opcode_spec() {
            Some(BinderDriverCommandProtocol::AcquireDone)
        }         else if code == BinderDriverCommandProtocol::AttemptAcquire.opcode_spec() {
            Some(BinderDriverCommandProtocol::AttemptAcquire)
        }         else if code == BinderDriverCommandProtocol::RegisterLooper.opcode_spec() {
            Some(BinderDriverCommandProtocol::RegisterLooper)
        }         else if code == BinderDriverCommandProtocol::EnterLooper.opcode_spec() {
            Some(BinderDriverCommandProtocol::EnterLooper)
        }         else if code == BinderDriverCommandProtocol::ExitLooper.opcode_spec() {
            Some(BinderDriverCommandProtocol::ExitLooper)
        }         else if code == BinderDriverCommandProtocol::RequestDeathNotification.opcode_spec() {
            Some(BinderDriverCommandProtocol::RequestDeathNotification)
        }         else if code == BinderDriverCommandProtocol::ClearDeathNotification.opcode_spec() {
            Some(BinderDriverCommandProtocol::ClearDeathNotification)
        }         else if code == BinderDriverCommandProtocol::DeadBinderDone.opcode_spec() {
            Some(BinderDriverCommandProtocol::DeadBinderDone)
        }         else if code == BinderDriverCommandProtocol::TransactionSG.opcode_spec() {
            Some(BinderDriverCommandProtocol::TransactionSG)
        }         else if code == BinderDriverCommandProtocol::ReplySG.opcode_spec() {
            Some(BinderDriverCommandProtocol::ReplySG)
        } else {
            None
        }
    }

    /// The command with opcode `code`, if there is one.
    pub fn from_u32(code: u32) -> (r: Option<BinderDriverCommandProtocol>)
        ensures
            r == BinderDriverCommandProtocol::of_opcode(code),
    {
        if code == 0x40406300 {
            Some(BinderDriverCommandProtocol::Transaction)
        }         else if code == 0x40406301 {
            Some(BinderDriverCommandProtocol::Reply)
        }         else if code == 0x40046302 {
            Some(BinderDriverCommandProtocol::AcquireResult)
        }         else if code == 0x40086303 {
            Some(BinderDriverCommandProtocol::FreeBuffer)
        }         else if code == 0x40046304 {
            Some(BinderDriverCommandProtocol::IncRefs)
        }         else if code == 0x40046305 {
            Some(BinderDriverCommandProtocol::Acquire)
        }         else if code == 0x40046306 {
            Some(BinderDriverCommandProtocol::Release)
        }         else if code == 0x40046307 {
            Some(BinderDriverCommandProtocol::DecRefs)
        }         else if code == 0x40106308 {
            Some(BinderDriverCommandProtocol::IncRefsDone)
        }         else if code == 0x40106309 {
            Some(BinderDriverCommandProtocol::AcquireDone)
        }         else if code == 0x4010630a {
            Some(BinderDriverCommandProtocol::AttemptAcquire)
        }         else if code == 0x0000630b {
            Some(BinderDriverCommandProtocol::RegisterLooper)
        }         else if code == 0x0000630c {
            Some(BinderDriverCommandProtocol::EnterLooper)
        }         else if code == 0x0000630d {
            Some(BinderDriverCommandProtocol::ExitLooper)
        }         else if code == 0x400c630e {
            Some(BinderDriverCommandProtocol::RequestDeathNotification)
        }         else if code == 0x400c630f {
            Some(BinderDriverCommandProtocol::ClearDeathNotification)
        }         else if code == 0x40086310 {
            Some(BinderDriverCommandProtocol::DeadBinderDone)
        }         else if code == 0x40486311 {
            Some(BinderDriverCommandProtocol::TransactionSG)
        }         else if code == 0x40486312 {
            Some(BinderDriverCommandProtocol::ReplySG)
        } else {
            None
        }
    }
}

/// The commands that the driver returns to a client.
#[derive(Debug, Clone, Copy, PartialEq, Eq, Structural)]
pub enum BinderDriverReturnProtocol {
    Error,
    Okay,
    Transaction,
    Reply,
    AcquireResult,
    DeadReply,
    TransactionComplete,
    IncRefs,
    Acquire,
    Release,
    DecRefs,
    AttemptAcquire,
    Noop,
    SpawnLooper,
    Finished,
    DeadBinder,
    ClearDeathNotification,
    FailedReply,
    FrozenReply,
    OnwaySpamSuspect,
}

impl BinderDriverReturnProtocol {
    /// The opcode of each command, built as the ioctl numbers of Linux are.
    pub open spec fn opcode_spec(self) -> u32 {
        match self {
            BinderDriverReturnProtocol::Error => ior('r' as u8, 0, 0x4),
            BinderDriverReturnProtocol::Okay => ior('r' as u8, 1, 0x0),
            BinderDriverReturnProtocol::Transaction => ior('r' as u8, 2, 0x40),
            BinderDriverReturnProtocol::Reply => ior('r' as u8, 3, 0x40),
            BinderDriverReturnProtocol::AcquireResult => ior('r' as u8, 4, 0x4),
            BinderDriverReturnProtocol::DeadReply => io('r' as u8, 5),
            BinderDriverReturnProtocol::TransactionComplete => io('r' as u8, 6),
            BinderDriverReturnProtocol::IncRefs => ior('r' as u8, 7, 0x10),
            BinderDriverReturnProtocol::Acquire => ior('r' as u8, 8, 0x10),
            BinderDriverReturnProtocol::Release => ior('r' as u8, 9, 0x10),
            BinderDriverReturnProtocol::DecRefs => ior('r' as u8, 10, 0x10),
            BinderDriverReturnProtocol::AttemptAcquire => ior('r' as u8, 11, 0xc),
            BinderDriverReturnProtocol::Noop => io('r' as u8, 12),
            BinderDriverReturnProtocol::SpawnLooper => io('r' as u8, 13),
            BinderDriverReturnProtocol::Finished => io('r' as u8, 14),
            BinderDriverReturnProtocol::DeadBinder => ior('r' as u8, 15, 0x8),
            BinderDriverReturnProtocol::ClearDeathNotification => ior('r' as u8, 16, 0x8),
            BinderDriverReturnProtocol::FailedReply => io('r' as u8, 17),
            BinderDriverReturnProtocol::FrozenReply => io('r' as u8, 18),
            BinderDriverReturnProtocol::OnwaySpamSuspect => io('r' as u8, 19),
        }
    }

    /// The opcode of this command.
    pub fn opcode(self) -> (code: u32)
        ensures
            code == self.opcode_spec(),
    {
        match self {
            BinderDriverReturnProtocol::Error => 0x80047200,
            BinderDriverReturnProtocol::Okay => 0x80007201,
            BinderDriverReturnProtocol::Transaction => 0x80407202,
            BinderDriverReturnProtocol::Reply => 0x80407203,
            BinderDriverReturnProtocol::AcquireResult => 0x80047204,
            BinderDriverReturnProtocol::DeadReply => 0x00007205,
            BinderDriverReturnProtocol::TransactionComplete => 0x00007206,
            BinderDriverReturnProtocol::IncRefs => 0x80107207,
            BinderDriverReturnProtocol::Acquire => 0x80107208,
            BinderDriverReturnProtocol::Release => 0x80107209,
            BinderDriverReturnProtocol::DecRefs => 0x8010720a,
            BinderDriverReturnProtocol::AttemptAcquire => 0x800c720b,
            BinderDriverReturnProtocol::Noop => 0x0000720c,
            BinderDriverReturnProtocol::SpawnLooper => 0x0000720d,
            BinderDriverReturnProtocol::Finished => 0x0000720e,
            BinderDriverReturnProtocol::DeadBinder => 0x8008720f,
            BinderDriverReturnProtocol::ClearDeathNotification => 0x80087210,
            BinderDriverReturnProtocol::FailedReply => 0x00007211,
            BinderDriverReturnProtocol::FrozenReply => 0x00007212,
            BinderDriverReturnProtocol::OnwaySpamSuspect => 0x00007213,
        }
    }

    /// The command with opcode `code`, if there is one.
    pub open spec fn of_opcode(code: u32) -> Option<BinderDriverReturnProtocol> {
        if code == BinderDriverReturnProtocol::Error.opcode_spec() {
            Some(BinderDriverReturnProtocol::Error)
        }         else if code == BinderDriverReturnProtocol::Okay.opcode_spec() {
            Some(BinderDriverReturnProtocol::Okay)
        }         else if code == BinderDriverReturnProtocol::Transaction.opcode_spec() {
            Some(BinderDriverReturnProtocol::Transaction)
        }         else if code == BinderDriverReturnProtocol::Reply.opcode_spec() {
            Some(BinderDriverReturnProtocol::Reply)
        }         else if code == BinderDriverReturnProtocol::AcquireResult.opcode_spec() {
            Some(BinderDriverReturnProtocol::AcquireResult)
        }         else if code == BinderDriverReturnProtocol::DeadReply.opcode_spec() {
            Some(BinderDriverReturnProtocol::DeadReply)
        }         else if code == BinderDriverReturnProtocol::TransactionComplete.opcode_spec() {
            Some(BinderDriverReturnProtocol::TransactionComplete)
        }         else if code == BinderDriverReturnProtocol::IncRefs.opcode_spec() {
            Some(BinderDriverReturnProtocol::IncRefs)
        }         else if code == BinderDriverReturnProtocol::Acquire.opcode_spec() {
            Some(BinderDriverReturnProtocol::Acquire)
        }         else if code == BinderDriverReturnProtocol::Release.opcode_spec() {
            Some(BinderDriverReturnProtocol::Release)
        }         else if code == BinderDriverReturnProtocol::DecRefs.opcode_spec() {
            Some(BinderDriverReturnProtocol::DecRefs)
        }         else if code == BinderDriverReturnProtocol::AttemptAcquire.opcode_spec() {
            Some(BinderDriverReturnProtocol::AttemptAcquire)
        }         else if code == BinderDriverReturnProtocol::Noop.opcode_spec() {
            Some(BinderDriverReturnProtocol::Noop)
        }         else if code == BinderDriverReturnProtocol::SpawnLooper.opcode_spec() {
            Some(BinderDriverReturnProtocol::SpawnLooper)
        }         else if code == BinderDriverReturnProtocol::Finished.opcode_spec() {
            Some(BinderDriverReturnProtocol::Finished)
        }         else if code == BinderDriverReturnProtocol::DeadBinder.opcode_spec() {
            Some(BinderDriverReturnProtocol::DeadBinder)
        }         else if code == BinderDriverReturnProtocol::ClearDeathNotification.opcode_spec() {
            Some(BinderDriverReturnProtocol::ClearDeathNotification)
        }         else if code == BinderDriverReturnProtocol::FailedReply.opcode_spec() {
            Some(BinderDriverReturnProtocol::FailedReply)
        }         else if code == BinderDriverReturnProtocol::FrozenReply.opcode_spec() {
            Some(BinderDriverReturnProtocol::FrozenReply)
        }         else if code == BinderDriverReturnProtocol::OnwaySpamSuspect.opcode_spec() {
            Some(BinderDriverReturnProtocol::OnwaySpamSuspect)
        } else {
            None
        }
    }

    /// The command with opcode `code`, if there is one.
    pub fn from_u32(code: u32) -> (r: Option<BinderDriverReturnProtocol>)
        ensures
            r == BinderDriverReturnProtocol::of_opcode(code),
    {
        if code == 0x80047200 {
            Some(BinderDriverReturnProtocol::Error)
        }         else if code == 0x80007201 {
            Some(BinderDriverReturnProtocol::Okay)
        }         else if code == 0x80407202 {
            Some(BinderDriverReturnProtocol::Transaction)
        }         else if code == 0x80407203 {
            Some(BinderDriverReturnProtocol::Reply)
        }         else if code == 0x80047204 {
            Some(BinderDriverReturnProtocol::AcquireResult)
        }         else if code == 0x00007205 {
            Some(BinderDriverReturnProtocol::DeadReply)
        }         else if code == 0x00007206 {
            Some(BinderDriverReturnProtocol::TransactionComplete)
        }         else if code == 0x80107207 {
            Some(BinderDriverReturnProtocol::IncRefs)
        }         else if code == 0x80107208 {
            Some(BinderDriverReturnProtocol::Acquire)
        }         else if code == 0x80107209 {
            Some(BinderDriverReturnProtocol::Release)
        }         else if code == 0x8010720a {
            Some(BinderDriverReturnProtocol::DecRefs)
        }         else if code == 0x800c720b {
            Some(BinderDriverReturnProtocol::AttemptAcquire)
        }         else if code == 0x0000720c {
            Some(BinderDriverReturnProtocol::Noop)
        }         else if code == 0x0000720d {
            Some(BinderDriverReturnProtocol::SpawnLooper)
        }         else if code == 0x0000720e {
            Some(BinderDriverReturnProtocol::Finished)
        }         else if code == 0x8008720f {
            Some(BinderDriverReturnProtocol::DeadBinder)
        }         else if code == 0x80087210 {
            Some(BinderDriverReturnProtocol::ClearDeathNotification)
        }         else if code == 0x00007211 {
            Some(BinderDriverReturnProtocol::FailedReply)
        }         else if code == 0x00007212 {
            Some(BinderDriverReturnProtocol::FrozenReply)
        }         else if code == 0x00007213 {
            Some(BinderDriverReturnProtocol::OnwaySpamSuspect)
        } else {
            None
        }
    }

    /// The number of payload bytes that follow this command in a stream.
    pub fn payload_len(self) -> (size: usize)
        ensures
            size == payload_size_spec(self.opcode_spec()),
    {
        payload_size(self.opcode())
    }
}

/// Every command is the command of its own opcode, whichever way it goes.
pub proof fn lemma_opcode_round_trip(
    sent: BinderDriverCommandProtocol,
    returned: BinderDriverReturnProtocol,
)
    ensures
        BinderDriverCommandProtocol::of_opcode(sent.opcode_spec()) == Some(sent),
        BinderDriverReturnProtocol::of_opcode(returned.opcode_spec()) == Some(returned),
{
}

/// The well-known transaction codes.
#[derive(Debug, Clone, Copy, PartialEq, Eq, Structural)]
pub enum Transaction {
    FirstCall,
    LastCall,
    Ping,
    Dump,
    ShellCommand,
    Interface,
    Sysprops,
    Extension,
    DebugPid,
    Tweet,
    Like,
}

impl Transaction {
    /// The code of each transaction: the bounds of the range of user calls,
    /// and four characters packed into a word for the others.
    pub open spec fn code_spec(self) -> u32 {
        match self {
            Transaction::FirstCall => 1,
            Transaction::LastCall => 0xff_ffff,
            Transaction::Ping => pack_chars('_' as u8, 'P' as u8, 'N' as u8, 'G' as u8),
            Transaction::Dump => pack_chars('_' as u8, 'D' as u8, 'M' as u8, 'P' as u8),
            Transaction::ShellCommand => pack_chars('_' as u8, 'C' as u8, 'M' as u8, 'D' as u8),
            Transaction::Interface => pack_chars('_' as u8, 'N' as u8, 'T' as u8, 'F' as u8),
            Transaction::Sysprops => pack_chars('_' as u8, 'S' as u8, 'P' as u8, 'R' as u8),
            Transaction::Extension => pack_chars('_' as u8, 'E' as u8, 'X' as u8, 'T' as u8),
            Transaction::DebugPid => pack_chars('_' as u8, 'P' as u8, 'I' as u8, 'D' as u8),
            Transaction::Tweet => pack_chars('_' as u8, 'T' as u8, 'W' as u8, 'T' as u8),
            Transaction::Like => pack_chars('_' as u8, 'L' as u8, 'I' as u8, 'K' as u8),
        }
    }

    /// The code of this transaction.
    pub fn code(self) -> (code: u32)
        ensures
            code == self.code_spec(),
    {
        match self {
            Transaction::FirstCall => 1,
            Transaction::LastCall => 0xff_ffff,
            Transaction::Ping => 0x5f504e47,
            Transaction::Dump => 0x5f444d50,
            Transaction::ShellCommand => 0x5f434d44,
            Transaction::Interface => 0x5f4e5446,
            Transaction::Sysprops => 0x5f535052,
            Transaction::Extension => 0x5f455854,
            Transaction::DebugPid => 0x5f504944,
            Transaction::Tweet => 0x5f545754,
            Transaction::Like => 0x5f4c494b,
        }
    }

    /// The transaction with code `code`, if there is one.
    pub open spec fn of_code(code: u32) -> Option<Transaction> {
        if code == Transaction::FirstCall.code_spec() {
            Some(Transaction::FirstCall)
        }         else if code == Transaction::LastCall.code_spec() {
            Some(Transaction::LastCall)
        }         else if code == Transaction::Ping.code_spec() {
            Some(Transaction::Ping)
        }         else if code == Transaction::Dump.code_spec() {
            Some(Transaction::Dump)
        }         else if code == Transaction::ShellCommand.code_spec() {
            Some(Transaction::ShellCommand)
        }         else if code == Transaction::Interface.code_spec() {
            Some(Transaction::Interface)
        }         else if code == Transaction::Sysprops.code_spec() {
            Some(Transaction::Sysprops)
        }         else if code == Transaction::Extension.code_spec() {
            Some(Transaction::Extension)
        }         else if code == Transaction::DebugPid.code_spec() {
            Some(Transaction::DebugPid)
        }         else if code == Transaction::Tweet.code_spec() {
            Some(Transaction::Tweet)
        }         else if code == Transaction::Like.code_spec() {
            Some(Transaction::Like)
        } else {
            None
        }
    }

    /// The transaction with code `code`, if there is one.
    pub fn from_u32(code: u32) -> (r: Option<Transaction>)
        ensures
            r == Transaction::of_code(code),
    {
        if code == 1 {
            Some(Transaction::FirstCall)
        } else if code == 0xff_ffff {
            Some(Transaction::LastCall)
        } else if code == 0x5f504e47 {
            Some(Transaction::Ping)
        } else if code == 0x5f444d50 {
            Some(Transaction::Dump)
        } else if code == 0x5f434d44 {
            Some(Transaction::ShellCommand)
        } else if code == 0x5f4e5446 {
            Some(Transaction::Interface)
        } else if code == 0x5f535052 {
            Some(Transaction::Sysprops)
        } else if code == 0x5f455854 {
            Some(Transaction::Extension)
        } else if code == 0x5f504944 {
            Some(Transaction::DebugPid)
        } else if code == 0x5f545754 {
            Some(Transaction::Tweet)
        } else if code == 0x5f4c494b {
            Some(Transaction::Like)
        } else {
            None
        }
    }

    /// Whether `code` lies in the range of user calls, from `FirstCall` to `LastCall`.
    pub fn is_user_call(code: u32) -> (b: bool)
        ensures
            b == (Transaction::FirstCall.code_spec() <= code <= Transaction::LastCall.code_spec()),
    {
        1 <= code && code <= 0xff_ffff
    }
}

/// The flag bits of a transaction.
#[derive(Debug, Clone, Copy, PartialEq, Eq, Structural)]
pub struct TransactionFlags {
    pub bits: u32,
}

/// The call expects no reply.
pub const TF_ONE_WAY: u32 = 1;

/// Noted app-ops are collected for the call.
pub const TF_COLLECT_NOTED_APP_OPS: u32 = 2;

/// The payload holds the root object of the component.
pub const TF_ROOT_OBJECT: u32 = 4;

/// The payload is a status code.
pub const TF_STATUS_CODE: u32 = 8;

/// The caller accepts file descriptors in the reply.
pub const TF_ACCEPT_FDS: u32 = 0x10;

/// The driver clears the buffer once the call is done.
pub const TF_CLEAR_BUF: u32 = 0x20;

/// All the flag bits that are defined.
pub const TF_ALL: u32 = 0x3f;

impl TransactionFlags {
    /// No flag set.
    pub fn empty() -> (flags: TransactionFlags)
        ensures
            flags.bits == 0,
    {
        TransactionFlags { bits: 0 }
    }

    /// The flag set with exactly the bits of `bits`, or `None` where `bits`
    /// holds a bit that is no flag.
    pub fn from_bits(bits: u32) -> (r: Option<TransactionFlags>)
        ensures
            r == (if bits <= TF_ALL {
                Some(TransactionFlags { bits })
            } else {
                None
            }),
    {
        if bits <= TF_ALL {
            Some(TransactionFlags { bits })
        } else {
            None
        }
    }

    /// The bits of this flag set.
    pub fn bits(&self) -> (bits: u32)
        ensures
            bits == self.bits,
    {
        self.bits
    }

    /// The flags that are set in `self` or in `other`.
    pub fn union(self, other: TransactionFlags) -> (flags: TransactionFlags)
        ensures
            flags.bits == self.bits | other.bits,
    {
        TransactionFlags { bits: self.bits | other.bits }
    }

    /// Whether every flag of `other` is set in `self`.
    pub fn contains(&self, other: TransactionFlags) -> (b: bool)
        ensures
            b == (self.bits & other.bits == other.bits),
    {
        self.bits & other.bits == other.bits
    }

    /// The call expects no reply.
    pub fn one_way() -> (flags: TransactionFlags)
        ensures
            flags.bits == TF_ONE_WAY,
    {
        TransactionFlags { bits: TF_ONE_WAY }
    }

    /// Noted app-ops are collected for the call.
    pub fn collect_noted_app_ops() -> (flags: TransactionFlags)
        ensures
            flags.bits == TF_COLLECT_NOTED_APP_OPS,
    {
        TransactionFlags { bits: TF_COLLECT_NOTED_APP_OPS }
    }

    /// The payload holds the root object of the component.
    pub fn root_object() -> (flags: TransactionFlags)
        ensures
            flags.bits == TF_ROOT_OBJECT,
    {
        TransactionFlags { bits: TF_ROOT_OBJECT }
    }

    /// The payload is a status code.
    pub fn status_code() -> (flags: TransactionFlags)
        ensures
            flags.bits == TF_STATUS_CODE,
    {
        TransactionFlags { bits: TF_STATUS_CODE }
    }

    /// The caller accepts file descriptors in the reply.
    pub fn accept_fds() -> (flags: TransactionFlags)
        ensures
            flags.bits == TF_ACCEPT_FDS,
    {
        TransactionFlags { bits: TF_ACCEPT_FDS }
    }

    /// The driver clears the buffer once the call is done.
    pub fn clear_buf() -> (flags: TransactionFlags)
        ensures
            flags.bits == TF_CLEAR_BUF,
    {
        TransactionFlags { bits: TF_CLEAR_BUF }
    }
}

} // verus!
