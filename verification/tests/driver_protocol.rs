use binder_rust::binder::{
    BINDER_VM_SIZE, DEFAULT_MAX_BINDER_THREADS, READ_BUFFER_SIZE, REPLY_TARGET,
};
use binder_rust::protocol::payload_size;
use binder_rust::{
    Binder, BinderDriverCommandProtocol, BinderDriverReturnProtocol, BinderTransactionData,
    BinderVersion, BinderWriteRead, Error, Parcel, Transaction, TransactionFlags,
};

fn descriptor(data: u64, data_size: u64) -> BinderTransactionData {
    BinderTransactionData {
        target: 3,
        cookie: 0x1122334455667788,
        code: 1,
        flags: 0x10,
        sender_pid: 100,
        sender_euid: 1000,
        data_size,
        offset_size: 0,
        data,
        offsets: 0,
    }
}

fn primitive_parcel() -> Parcel {
    let mut parcel = Parcel::empty();
    parcel.write_u32(1).unwrap();
    parcel.write_i32(-1).unwrap();
    parcel.write_bool(true).unwrap();
    parcel
}

#[test]
fn command_opcodes() {
    let expected = [
        (BinderDriverCommandProtocol::Transaction, 0x40406300u32),
        (BinderDriverCommandProtocol::Reply, 0x40406301),
        (BinderDriverCommandProtocol::AcquireResult, 0x40046302),
        (BinderDriverCommandProtocol::FreeBuffer, 0x40086303),
        (BinderDriverCommandProtocol::IncRefs, 0x40046304),
        (BinderDriverCommandProtocol::Acquire, 0x40046305),
        (BinderDriverCommandProtocol::Release, 0x40046306),
        (BinderDriverCommandProtocol::DecRefs, 0x40046307),
        (BinderDriverCommandProtocol::IncRefsDone, 0x40106308),
        (BinderDriverCommandProtocol::AcquireDone, 0x40106309),
        (BinderDriverCommandProtocol::AttemptAcquire, 0x4010630a),
        (BinderDriverCommandProtocol::RegisterLooper, 0x630b),
        (BinderDriverCommandProtocol::EnterLooper, 0x630c),
        (BinderDriverCommandProtocol::ExitLooper, 0x630d),
        (BinderDriverCommandProtocol::RequestDeathNotification, 0x400c630e),
        (BinderDriverCommandProtocol::ClearDeathNotification, 0x400c630f),
        (BinderDriverCommandProtocol::DeadBinderDone, 0x40086310),
        (BinderDriverCommandProtocol::TransactionSG, 0x40486311),
        (BinderDriverCommandProtocol::ReplySG, 0x40486312),
    ];
    for (command, opcode) in expected {
        assert_eq!(command.opcode(), opcode);
        assert_eq!(BinderDriverCommandProtocol::from_u32(opcode), Some(command));
    }
    assert_eq!(BinderDriverCommandProtocol::from_u32(0), None);
    assert_eq!(BinderDriverCommandProtocol::from_u32(0x80407203), None);
}

#[test]
fn return_opcodes() {
    let expected = [
        (BinderDriverReturnProtocol::Error, 0x80047200u32, 4usize),
        (BinderDriverReturnProtocol::Okay, 0x80007201, 0),
        (BinderDriverReturnProtocol::Transaction, 0x80407202, 64),
        (BinderDriverReturnProtocol::Reply, 0x80407203, 64),
        (BinderDriverReturnProtocol::AcquireResult, 0x80047204, 4),
        (BinderDriverReturnProtocol::DeadReply, 0x7205, 0),
        (BinderDriverReturnProtocol::TransactionComplete, 0x7206, 0),
        (BinderDriverReturnProtocol::IncRefs, 0x80107207, 16),
        (BinderDriverReturnProtocol::Acquire, 0x80107208, 16),
        (BinderDriverReturnProtocol::Release, 0x80107209, 16),
        (BinderDriverReturnProtocol::DecRefs, 0x8010720a, 16),
        (BinderDriverReturnProtocol::AttemptAcquire, 0x800c720b, 12),
        (BinderDriverReturnProtocol::Noop, 0x720c, 0),
        (BinderDriverReturnProtocol::SpawnLooper, 0x720d, 0),
        (BinderDriverReturnProtocol::Finished, 0x720e, 0),
        (BinderDriverReturnProtocol::DeadBinder, 0x8008720f, 8),
        (BinderDriverReturnProtocol::ClearDeathNotification, 0x80087210, 8),
        (BinderDriverReturnProtocol::FailedReply, 0x7211, 0),
        (BinderDriverReturnProtocol::FrozenReply, 0x7212, 0),
        (BinderDriverReturnProtocol::OnwaySpamSuspect, 0x7213, 0),
    ];
    for (command, opcode, payload) in expected {
        assert_eq!(command.opcode(), opcode);
        assert_eq!(BinderDriverReturnProtocol::from_u32(opcode), Some(command));
        assert_eq!(command.payload_len(), payload);
        assert_eq!(payload_size(opcode), payload);
    }
    assert_eq!(BinderDriverReturnProtocol::from_u32(0x40406300), None);
}

#[test]
fn transaction_codes() {
    let expected = [
        (Transaction::FirstCall, 1u32),
        (Transaction::LastCall, 0x00ffffff),
        (Transaction::Ping, u32::from_be_bytes(*b"_PNG")),
        (Transaction::Dump, u32::from_be_bytes(*b"_DMP")),
        (Transaction::ShellCommand, u32::from_be_bytes(*b"_CMD")),
        (Transaction::Interface, u32::from_be_bytes(*b"_NTF")),
        (Transaction::Sysprops, u32::from_be_bytes(*b"_SPR")),
        (Transaction::Extension, u32::from_be_bytes(*b"_EXT")),
        (Transaction::DebugPid, u32::from_be_bytes(*b"_PID")),
        (Transaction::Tweet, u32::from_be_bytes(*b"_TWT")),
        (Transaction::Like, u32::from_be_bytes(*b"_LIK")),
    ];
    for (transaction, code) in expected {
        assert_eq!(transaction.code(), code);
        assert_eq!(Transaction::from_u32(code), Some(transaction));
    }
    assert_eq!(Transaction::from_u32(2), None);
    assert!(Transaction::is_user_call(1));
    assert!(Transaction::is_user_call(0x00ffffff));
    assert!(!Transaction::is_user_call(0));
    assert!(!Transaction::is_user_call(0x01000000));
}

#[test]
fn transaction_flags() {
    assert_eq!(TransactionFlags::empty().bits(), 0);
    assert_eq!(TransactionFlags::one_way().bits(), 1);
    assert_eq!(TransactionFlags::collect_noted_app_ops().bits(), 2);
    assert_eq!(TransactionFlags::root_object().bits(), 4);
    assert_eq!(TransactionFlags::status_code().bits(), 8);
    assert_eq!(TransactionFlags::accept_fds().bits(), 0x10);
    assert_eq!(TransactionFlags::clear_buf().bits(), 0x20);
    let both = TransactionFlags::accept_fds().union(TransactionFlags::one_way());
    assert_eq!(both.bits(), 0x11);
    assert!(both.contains(TransactionFlags::one_way()));
    assert!(!both.contains(TransactionFlags::clear_buf()));
    assert_eq!(TransactionFlags::from_bits(0x3f).map(|f| f.bits()), Some(0x3f));
    assert_eq!(TransactionFlags::from_bits(0x40), None);
    assert_eq!(descriptor(0, 0).flags(), TransactionFlags::accept_fds());
}

#[test]
fn constants_of_the_driver() {
    assert_eq!(REPLY_TARGET, 0xffffffff);
    assert_eq!(READ_BUFFER_SIZE, 32 * 8);
    assert_eq!(DEFAULT_MAX_BINDER_THREADS, 15);
    assert_eq!(BINDER_VM_SIZE, (1 << 20) - 2 * 4096);
    assert_eq!(BinderVersion { protocol_version: 8 }.protocol_version, 8);
}

#[test]
fn descriptor_layout() {
    let d = descriptor(0xA1A2A3A4A5A6A7A8, 12);
    let bytes = d.to_bytes();
    assert_eq!(bytes.len(), 64);
    assert_eq!(&bytes[0..4], &[3, 0, 0, 0]);
    assert_eq!(&bytes[4..8], &[0, 0, 0, 0]);
    assert_eq!(&bytes[8..16], &0x1122334455667788u64.to_le_bytes());
    assert_eq!(&bytes[16..20], &[1, 0, 0, 0]);
    assert_eq!(&bytes[20..24], &[0x10, 0, 0, 0]);
    assert_eq!(&bytes[24..28], &100u32.to_le_bytes());
    assert_eq!(&bytes[28..32], &1000u32.to_le_bytes());
    assert_eq!(&bytes[32..40], &12u64.to_le_bytes());
    assert_eq!(&bytes[40..48], &0u64.to_le_bytes());
    assert_eq!(&bytes[48..56], &0xA1A2A3A4A5A6A7A8u64.to_le_bytes());
    assert_eq!(&bytes[56..64], &0u64.to_le_bytes());
    assert_eq!(BinderTransactionData::from_bytes(&bytes), Some(d));
    assert_eq!(BinderTransactionData::from_bytes(&bytes[..63]), None);
    assert_eq!(d.code(), 1);
    assert_eq!(d.cookie(), 0x1122334455667788);
    assert_eq!(d.target(), 3);
}

#[test]
fn descriptor_through_a_parcel() {
    let d = descriptor(7, 9);
    let mut parcel = Parcel::empty();
    parcel.write_transaction_data(&d).unwrap();
    assert_eq!(parcel.len(), 64);
    assert_eq!(parcel.offsets_len(), 0);
    parcel.set_position(0);
    assert_eq!(parcel.read_transaction_data(), Ok(d));
    assert_eq!(parcel.read_transaction_data(), Err(Error::DeserializationError));
}

#[test]
fn write_read_control_block() {
    let block = BinderWriteRead::new(68, 0x1000, true, 256, 0x2000);
    assert_eq!(block.write_size(), 68);
    assert_eq!(block.write_consumed(), 0);
    assert_eq!(block.write_buffer(), 0x1000);
    assert_eq!(block.read_size(), 256);
    assert_eq!(block.read_consumed(), 0);
    assert_eq!(block.read_buffer(), 0x2000);
    let silent = BinderWriteRead::new(4, 0x1000, false, 256, 0x2000);
    assert_eq!(silent.read_size(), 0);
    let after = block.consumed(68, 24);
    assert_eq!(after.write_consumed(), 68);
    assert_eq!(after.read_consumed(), 24);
    assert_eq!(after.write_size(), 68);
}

#[test]
fn reference_count_commands_wait_for_the_flush() {
    let mut binder = Binder::new();
    assert_eq!(binder.pending_len(), 0);
    binder.add_ref(7).unwrap();
    binder.acquire(7).unwrap();
    binder.release(-1).unwrap();
    binder.dec_ref(2).unwrap();
    assert_eq!(
        binder.pending_bytes(),
        &[
            0x04, 0x63, 0x04, 0x40, 7, 0, 0, 0, // IncRefs 7
            0x05, 0x63, 0x04, 0x40, 7, 0, 0, 0, // Acquire 7
            0x06, 0x63, 0x04, 0x40, 0xFF, 0xFF, 0xFF, 0xFF, // Release -1
            0x07, 0x63, 0x04, 0x40, 2, 0, 0, 0, // DecRefs 2
        ]
    );
    assert_eq!(binder.pending_len(), 32);
}

#[test]
fn free_buffer_command() {
    let mut binder = Binder::new();
    binder.free_buffer(0x0102030405060708).unwrap();
    assert_eq!(
        binder.pending_bytes(),
        &[0x03, 0x63, 0x08, 0x40, 8, 7, 6, 5, 4, 3, 2, 1]
    );
}

#[test]
fn looper_commands() {
    let binder = Binder::new();
    let enter = binder.enter_looper().unwrap();
    assert_eq!(enter.to_slice(), &[0x0c, 0x63, 0, 0]);
    let exit = binder.exit_looper().unwrap();
    assert_eq!(exit.to_slice(), &[0x0d, 0x63, 0, 0]);
    assert_eq!(binder.pending_len(), 0);
}

#[test]
fn transact_queues_opcode_and_descriptor() {
    let mut binder = Binder::new();
    let mut data = primitive_parcel();
    data.push_object().unwrap();
    binder
        .transact(5, 0x42, TransactionFlags::one_way(), &data, 0x7000, 0x8000)
        .unwrap();
    let pending = binder.pending_bytes().to_vec();
    assert_eq!(pending.len(), 4 + 64);
    assert_eq!(&pending[..4], &0x40406300u32.to_le_bytes());
    let d = BinderTransactionData::from_bytes(&pending[4..]).unwrap();
    assert_eq!(d.target, 5);
    assert_eq!(d.code, 0x42);
    assert_eq!(d.flags, 0x11); // the caller's flags and "accept file descriptors"
    assert_eq!(d.cookie, 0);
    assert_eq!(d.sender_pid, 0);
    assert_eq!(d.sender_euid, 0);
    assert_eq!(d.data_size, 12);
    assert_eq!(d.offset_size, std::mem::size_of::<usize>() as u64);
    assert_eq!(d.data, 0x7000);
    assert_eq!(d.offsets, 0x8000);
}

#[test]
fn transact_with_an_empty_parcel_has_null_addresses() {
    let mut binder = Binder::new();
    let data = Parcel::empty();
    binder
        .transact(0, Transaction::Ping.code(), TransactionFlags::empty(), &data, 0x7000, 0x8000)
        .unwrap();
    let d = BinderTransactionData::from_bytes(&binder.pending_bytes()[4..]).unwrap();
    assert_eq!(d.flags, 0x10);
    assert_eq!(d.data_size, 0);
    assert_eq!(d.offset_size, 0);
    assert_eq!(d.data, 0);
    assert_eq!(d.offsets, 0);
    assert_eq!(d.code, 0x5f504e47);
}

#[test]
fn transact_to_a_negative_handle_keeps_its_bit_pattern() {
    let mut binder = Binder::new();
    binder.transact(-1, 1, TransactionFlags::empty(), &Parcel::empty(), 0, 0).unwrap();
    let d = BinderTransactionData::from_bytes(&binder.pending_bytes()[4..]).unwrap();
    assert_eq!(d.target, 0xffffffff);
}

#[test]
fn reply_passes_flags_through() {
    let mut binder = Binder::new();
    let data = primitive_parcel();
    binder.reply(&data, TransactionFlags::one_way(), 0x7000, 0x8000).unwrap();
    let pending = binder.pending_bytes().to_vec();
    assert_eq!(&pending[..4], &0x40406301u32.to_le_bytes());
    let d = BinderTransactionData::from_bytes(&pending[4..]).unwrap();
    assert_eq!(d.target, 0xffffffff);
    assert_eq!(d.code, 0);
    assert_eq!(d.flags, 1);
    assert_eq!(d.data_size, 12);
    assert_eq!(d.data, 0x7000);
    assert_eq!(d.offsets, 0);
}

#[test]
fn flush_joins_the_outbound_parcel_to_the_queue() {
    let mut binder = Binder::new();
    binder.add_ref(1).unwrap();
    let mut out = Parcel::empty();
    out.write_u32(0x630c).unwrap();
    binder.begin_write_read(&out).unwrap();
    assert_eq!(binder.pending_len(), 12);
    assert_eq!(&binder.pending_bytes()[8..], &[0x0c, 0x63, 0, 0]);
    assert_eq!(binder.finish_write_read(&[]), Ok(None));
    assert_eq!(binder.pending_len(), 0);
}

#[test]
fn reply_after_transaction_complete_is_returned() {
    let primitives = primitive_parcel();
    let payload = primitives.to_slice().to_vec();
    let d = descriptor(payload.as_ptr() as u64, payload.len() as u64);
    let mut stream = Parcel::empty();
    stream.write_u32(BinderDriverReturnProtocol::TransactionComplete.opcode()).unwrap();
    stream.write_u32(BinderDriverReturnProtocol::Reply.opcode()).unwrap();
    stream.write_transaction_data(&d).unwrap();

    let mut binder = Binder::new();
    binder.transact(3, 1, TransactionFlags::empty(), &Parcel::empty(), 0, 0).unwrap();
    let returned = binder.finish_write_read(stream.to_slice()).unwrap().unwrap();
    assert_eq!(returned, d);
    assert_eq!(binder.pending_len(), 0);
    // the parcel that the descriptor points to
    assert_eq!(returned.data, payload.as_ptr() as u64);
    let mut parcel = Parcel::from_data_and_offsets(&payload[..returned.data_size as usize], &[]);
    assert_eq!(parcel.to_slice(), primitives.to_slice());
    assert_eq!(parcel.read_u32(), Ok(1));
    assert_eq!(parcel.read_i32(), Ok(-1));
}

#[test]
fn inc_refs_is_answered_on_the_next_flush() {
    let d = descriptor(0, 0);
    let mut stream = Parcel::empty();
    stream.write_u32(BinderDriverReturnProtocol::IncRefs.opcode()).unwrap();
    stream.write_u64(7).unwrap();
    stream.write_u64(0x55).unwrap();
    stream.write_u32(BinderDriverReturnProtocol::TransactionComplete.opcode()).unwrap();
    stream.write_u32(BinderDriverReturnProtocol::Reply.opcode()).unwrap();
    stream.write_transaction_data(&d).unwrap();

    let mut binder = Binder::new();
    binder.transact(3, 1, TransactionFlags::empty(), &Parcel::empty(), 0, 0).unwrap();
    assert_eq!(binder.finish_write_read(stream.to_slice()), Ok(Some(d)));
    let mut expected = 0x40106308u32.to_le_bytes().to_vec();
    expected.extend_from_slice(&7u64.to_le_bytes());
    expected.extend_from_slice(&0x55u64.to_le_bytes());
    assert_eq!(binder.pending_bytes(), expected.as_slice());
}

#[test]
fn acquire_is_answered_and_release_is_not() {
    let mut stream = Parcel::empty();
    stream.write_u32(BinderDriverReturnProtocol::Acquire.opcode()).unwrap();
    stream.write_u64(1).unwrap();
    stream.write_u64(2).unwrap();
    stream.write_u32(BinderDriverReturnProtocol::Release.opcode()).unwrap();
    stream.write_u64(3).unwrap();
    stream.write_u64(4).unwrap();
    stream.write_u32(BinderDriverReturnProtocol::DecRefs.opcode()).unwrap();
    stream.write_u64(5).unwrap();
    stream.write_u64(6).unwrap();
    stream.write_u32(BinderDriverReturnProtocol::IncRefs.opcode()).unwrap();
    stream.write_u64(7).unwrap();
    stream.write_u64(8).unwrap();

    let mut binder = Binder::new();
    assert_eq!(binder.finish_write_read(stream.to_slice()), Ok(None));
    let mut expected = 0x40106309u32.to_le_bytes().to_vec();
    expected.extend_from_slice(&1u64.to_le_bytes());
    expected.extend_from_slice(&2u64.to_le_bytes());
    expected.extend_from_slice(&0x40106308u32.to_le_bytes());
    expected.extend_from_slice(&7u64.to_le_bytes());
    expected.extend_from_slice(&8u64.to_le_bytes());
    assert_eq!(binder.pending_bytes(), expected.as_slice());
}

#[test]
fn commands_without_meaning_for_the_call_are_stepped_over() {
    let d = descriptor(0, 0);
    let mut stream = Parcel::empty();
    stream.write_u32(BinderDriverReturnProtocol::Noop.opcode()).unwrap();
    stream.write_u32(BinderDriverReturnProtocol::SpawnLooper.opcode()).unwrap();
    stream.write_u32(BinderDriverReturnProtocol::Okay.opcode()).unwrap();
    stream.write_u32(BinderDriverReturnProtocol::AcquireResult.opcode()).unwrap();
    stream.write_i32(1).unwrap();
    stream.write_u32(BinderDriverReturnProtocol::DeadBinder.opcode()).unwrap();
    stream.write_u64(9).unwrap();
    stream.write_u32(BinderDriverReturnProtocol::AttemptAcquire.opcode()).unwrap();
    stream.write(&[0u8; 12]).unwrap();
    stream.write_u32(0x12345678).unwrap(); // unknown: skipped without payload
    stream.write_u32(BinderDriverReturnProtocol::Transaction.opcode()).unwrap();
    stream.write_transaction_data(&d).unwrap();
    stream.write_u32(BinderDriverReturnProtocol::Noop.opcode()).unwrap();

    let mut binder = Binder::new();
    let mut parcel_in = Parcel::from_slice(stream.to_slice());
    assert_eq!(binder.process_incoming(&mut parcel_in), Ok(Some(d)));
    // reading stops right after the descriptor
    assert_eq!(parcel_in.position() as usize, stream.len() - 4);
    assert_eq!(binder.pending_len(), 0);
}

#[test]
fn drained_stream_without_reply_gives_nothing() {
    let mut stream = Parcel::empty();
    stream.write_u32(BinderDriverReturnProtocol::Noop.opcode()).unwrap();
    stream.write_u32(BinderDriverReturnProtocol::TransactionComplete.opcode()).unwrap();
    let mut binder = Binder::new();
    assert_eq!(binder.finish_write_read(stream.to_slice()), Ok(None));
}

#[test]
fn dead_and_failed_replies_fail_the_call() {
    let mut dead = Parcel::empty();
    dead.write_u32(BinderDriverReturnProtocol::TransactionComplete.opcode()).unwrap();
    dead.write_u32(BinderDriverReturnProtocol::DeadReply.opcode()).unwrap();
    let mut binder = Binder::new();
    assert_eq!(binder.finish_write_read(dead.to_slice()), Err(Error::DeadReply));

    let mut failed = Parcel::empty();
    failed.write_u32(BinderDriverReturnProtocol::FailedReply.opcode()).unwrap();
    assert_eq!(binder.finish_write_read(failed.to_slice()), Err(Error::FailedReply));
    assert_eq!(Error::DeadReply.message(), "dead reply");
    assert_eq!(Error::FailedReply.message(), "failed reply");
}

#[test]
fn driver_error_is_surfaced_with_its_number() {
    let mut stream = Parcel::empty();
    stream.write_u32(BinderDriverReturnProtocol::Error.opcode()).unwrap();
    stream.write_i32(-22).unwrap();
    let mut binder = Binder::new();
    assert_eq!(binder.finish_write_read(stream.to_slice()), Err(Error::DriverError(-22)));
    assert_eq!(Error::DriverError(-22).message(), "driver error");
}

#[test]
fn commands_cut_short_are_deserialization_errors() {
    let mut binder = Binder::new();
    assert_eq!(binder.finish_write_read(&[0x06, 0x72]), Err(Error::DeserializationError));

    let mut reply = Parcel::empty();
    reply.write_u32(BinderDriverReturnProtocol::Reply.opcode()).unwrap();
    reply.write(&[0u8; 60]).unwrap();
    assert_eq!(binder.finish_write_read(reply.to_slice()), Err(Error::DeserializationError));

    let mut demand = Parcel::empty();
    demand.write_u32(BinderDriverReturnProtocol::IncRefs.opcode()).unwrap();
    demand.write_u64(7).unwrap();
    assert_eq!(binder.finish_write_read(demand.to_slice()), Err(Error::DeserializationError));
    assert_eq!(binder.pending_len(), 0);

    let mut error = Parcel::empty();
    error.write_u32(BinderDriverReturnProtocol::Error.opcode()).unwrap();
    assert_eq!(binder.finish_write_read(error.to_slice()), Err(Error::DeserializationError));
}
