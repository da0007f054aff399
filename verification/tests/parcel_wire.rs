use binder_rust::{Error, Parcel, Parcelable};

#[test]
fn primitive_parcel_bytes_and_read_back() {
    let mut parcel = Parcel::empty();
    parcel.write_u32(1).unwrap();
    parcel.write_i32(-1).unwrap();
    parcel.write_bool(true).unwrap();
    assert_eq!(
        parcel.to_slice(),
        &[0x01, 0x00, 0x00, 0x00, 0xFF, 0xFF, 0xFF, 0xFF, 0x01, 0x00, 0x00, 0x00]
    );
    parcel.set_position(0);
    assert_eq!(parcel.read_u32(), Ok(1));
    assert_eq!(parcel.read_i32(), Ok(-1));
    assert_eq!(bool::deserialize(&mut parcel), Ok(true));
    assert!(!parcel.has_unread_data());
}

#[test]
fn str16_bytes_and_read_back() {
    let mut parcel = Parcel::empty();
    parcel.write_str16("Hi").unwrap();
    assert_eq!(
        parcel.to_slice(),
        &[0x02, 0x00, 0x00, 0x00, 0x48, 0x00, 0x69, 0x00, 0x00, 0x00, 0x00, 0x00]
    );
    assert_eq!(parcel.len(), 12);
    parcel.set_position(0);
    assert_eq!(parcel.read_str16(), Ok("Hi".to_string()));
    assert_eq!(parcel.position(), 12);
}

#[test]
fn option_i32_bytes() {
    let mut some = Parcel::empty();
    Some(7i32).serialize(&mut some).unwrap();
    assert_eq!(some.to_slice(), &[0x01, 0x00, 0x00, 0x00, 0x07, 0x00, 0x00, 0x00]);
    let mut none = Parcel::empty();
    None::<i32>.serialize(&mut none).unwrap();
    assert_eq!(none.to_slice(), &[0x00, 0x00, 0x00, 0x00]);
    some.set_position(0);
    assert_eq!(Option::<i32>::deserialize(&mut some), Ok(Some(7)));
    none.set_position(0);
    assert_eq!(Option::<i32>::deserialize(&mut none), Ok(None));
}

#[test]
fn sequence_of_u8_is_padded() {
    let mut parcel = Parcel::empty();
    vec![1u8, 2, 3].serialize(&mut parcel).unwrap();
    assert_eq!(parcel.to_slice(), &[0x03, 0x00, 0x00, 0x00, 0x01, 0x02, 0x03, 0x00]);
    parcel.set_position(0);
    assert_eq!(Vec::<u8>::deserialize(&mut parcel), Ok(vec![1u8, 2, 3]));
    assert_eq!(parcel.position(), 8);
}

#[test]
fn append_relocates_offsets() {
    let mut p = Parcel::empty();
    p.push_object().unwrap();
    p.write_u8(0xAA).unwrap();
    let mut q = Parcel::empty();
    q.write_u8(0xBB).unwrap();
    q.push_object().unwrap();
    q.write_u8(0xCC).unwrap();
    assert_eq!(q.offsets().as_slice(), &[1]);
    p.append_parcel(&mut q).unwrap();
    assert_eq!(p.to_slice(), &[0xAA, 0xBB, 0xCC]);
    assert_eq!(p.offsets().as_slice(), &[0, 2]);
    assert_eq!(p.offsets_len(), 2);
}

#[test]
fn truncated_read_is_a_deserialization_error() {
    let mut parcel = Parcel::from_slice(&[1, 2, 3]);
    assert_eq!(parcel.read_u32(), Err(Error::DeserializationError));
    assert_eq!(parcel.position(), 0);
    assert_eq!(parcel.read_u16(), Ok(0x0201));
}

#[test]
fn interface_token_bytes_and_read_back() {
    let mut parcel = Parcel::empty();
    parcel.write_interface_token("x").unwrap();
    let bytes = parcel.to_slice().to_vec();
    // policy word (bit 31 and 0x42000004), work-source uid -1, marker "SYST"
    assert_eq!(&bytes[..12], &[0x04, 0x00, 0x00, 0xC2, 0xFF, 0xFF, 0xFF, 0xFF, 0x54, 0x53, 0x59, 0x53]);
    // then the name as a UTF-16 string
    let mut name = Parcel::empty();
    name.write_str16("x").unwrap();
    assert_eq!(&bytes[12..], name.to_slice());
    assert_eq!(&bytes[12..], &[0x01, 0x00, 0x00, 0x00, 0x78, 0x00, 0x00, 0x00]);
    parcel.set_position(0);
    assert_eq!(parcel.read_interface_token(), Ok("x".to_string()));
    assert!(!parcel.has_unread_data());
}

#[test]
fn interface_token_with_any_policy_word_is_read() {
    let mut parcel = Parcel::empty();
    parcel.write_i32(0x42000004).unwrap();
    parcel.write_i32(-1).unwrap();
    parcel.write_i32(0x53595354).unwrap();
    parcel.write_str16("iface").unwrap();
    parcel.set_position(0);
    assert_eq!(parcel.read_interface_token(), Ok("iface".to_string()));
}

#[test]
fn interface_token_with_wrong_magic_fails() {
    let mut parcel = Parcel::empty();
    parcel.write_i32(0x42000004).unwrap();
    parcel.write_i32(-1).unwrap();
    parcel.write_i32(0x53595355).unwrap();
    parcel.write_str16("x").unwrap();
    parcel.set_position(0);
    assert_eq!(parcel.read_interface_token(), Err(Error::DeserializationError));
    assert_eq!(parcel.position(), 0);
}

#[test]
fn interface_token_with_wrong_uid_fails() {
    let mut parcel = Parcel::empty();
    parcel.write_i32(0x42000004).unwrap();
    parcel.write_i32(1000).unwrap();
    parcel.write_i32(0x53595354).unwrap();
    parcel.write_str16("x").unwrap();
    parcel.set_position(0);
    assert_eq!(parcel.read_interface_token(), Err(Error::DeserializationError));
    assert_eq!(parcel.position(), 0);
}

#[test]
fn interface_token_cut_short_fails() {
    let mut parcel = Parcel::from_slice(&[0x04, 0x00, 0x00, 0xC2, 0xFF, 0xFF, 0xFF, 0xFF]);
    assert_eq!(parcel.read_interface_token(), Err(Error::DeserializationError));
    assert_eq!(parcel.position(), 0);
}

#[test]
fn integers_are_little_endian() {
    let mut parcel = Parcel::empty();
    parcel.write_u16(0x1234).unwrap();
    parcel.write_u32(0x89ABCDEF).unwrap();
    parcel.write_u64(0x0102030405060708).unwrap();
    parcel.write_i32(-2).unwrap();
    parcel.write_u8(0x7F).unwrap();
    parcel.write_usize(0x1122).unwrap();
    assert_eq!(
        parcel.to_slice(),
        &[
            0x34, 0x12, 0xEF, 0xCD, 0xAB, 0x89, 0x08, 0x07, 0x06, 0x05, 0x04, 0x03, 0x02, 0x01,
            0xFE, 0xFF, 0xFF, 0xFF, 0x7F, 0x22, 0x11, 0x00, 0x00, 0x00, 0x00, 0x00, 0x00
        ]
    );
    parcel.set_position(0);
    assert_eq!(parcel.read_u16(), Ok(0x1234));
    assert_eq!(parcel.read_u32(), Ok(0x89ABCDEF));
    assert_eq!(parcel.read_u64(), Ok(0x0102030405060708));
    assert_eq!(parcel.read_i32(), Ok(-2));
    assert_eq!(parcel.read_u8(), Ok(0x7F));
    assert_eq!(parcel.read_usize(), Ok(0x1122));
    assert_eq!(parcel.read_u8(), Err(Error::DeserializationError));
}

#[test]
fn bool_is_four_bytes() {
    let mut parcel = Parcel::empty();
    parcel.write_bool(false).unwrap();
    parcel.write_bool(true).unwrap();
    assert_eq!(parcel.to_slice(), &[0, 0, 0, 0, 1, 0, 0, 0]);
}

#[test]
fn write_pads_slices_to_four_bytes() {
    let mut parcel = Parcel::empty();
    parcel.write(&[1, 2, 3, 4, 5]).unwrap();
    assert_eq!(parcel.to_slice(), &[1, 2, 3, 4, 5, 0, 0, 0]);
    assert_eq!(parcel.len() % 4, 0);
    parcel.write(&[]).unwrap();
    assert_eq!(parcel.len(), 8);
    parcel.write(&[9, 9, 9, 9]).unwrap();
    assert_eq!(parcel.len(), 12);
}

#[test]
fn string_writes_leave_a_length_that_is_a_multiple_of_four() {
    for text in ["", "a", "ab", "abc", "abcd", "abcde", "h\u{e9}llo", "\u{1F600}"] {
        let mut wide = Parcel::empty();
        wide.write_str16(text).unwrap();
        assert_eq!(wide.len() % 4, 0, "str16 {:?}", text);
        let mut narrow = Parcel::empty();
        narrow.write_str(text).unwrap();
        assert_eq!(narrow.len() % 4, 0, "str {:?}", text);
    }
}

#[test]
fn aligned_and_unaligned_reads() {
    let mut parcel = Parcel::from_slice(&[1, 2, 3, 4, 5, 6, 7, 8]);
    assert_eq!(parcel.read(2), Ok(vec![1, 2, 3, 4]));
    assert_eq!(parcel.position(), 4);
    assert_eq!(parcel.read_without_alignment(3), Ok(vec![5, 6, 7]));
    assert_eq!(parcel.position(), 7);
    assert_eq!(parcel.read(1), Err(Error::DeserializationError));
    assert_eq!(parcel.position(), 7);
    assert_eq!(parcel.read_without_alignment(1), Ok(vec![8]));
    assert_eq!(parcel.read(0), Ok(vec![]));
}

#[test]
fn str16_counts_code_units_not_bytes() {
    let mut parcel = Parcel::empty();
    parcel.write_str16("\u{e9}\u{1F600}").unwrap();
    // one unit for e-acute, a surrogate pair for the emoji
    assert_eq!(
        parcel.to_slice(),
        &[0x03, 0, 0, 0, 0xE9, 0x00, 0x3D, 0xD8, 0x00, 0xDE, 0x00, 0x00]
    );
    parcel.set_position(0);
    assert_eq!(parcel.read_str16(), Ok("\u{e9}\u{1F600}".to_string()));
}

#[test]
fn str16_with_a_lone_surrogate_is_a_utf16_error() {
    let mut parcel = Parcel::from_slice(&[0x01, 0, 0, 0, 0x00, 0xD8, 0x00, 0x00]);
    assert_eq!(parcel.read_str16(), Err(Error::Utf16Error));
    assert_eq!(parcel.position(), 0);
    let mut low_first = Parcel::from_slice(&[0x02, 0, 0, 0, 0x00, 0xDC, 0x00, 0xD8, 0, 0, 0, 0]);
    assert_eq!(low_first.read_str16(), Err(Error::Utf16Error));
}

#[test]
fn str16_length_minus_one_is_the_empty_string() {
    let mut parcel = Parcel::from_slice(&[0xFF, 0xFF, 0xFF, 0xFF]);
    assert_eq!(parcel.read_str16(), Ok(String::new()));
    assert_eq!(parcel.position(), 4);
    let mut narrow = Parcel::from_slice(&[0xFF, 0xFF, 0xFF, 0xFF]);
    assert_eq!(narrow.read_str(), Ok(String::new()));
    assert_eq!(narrow.position(), 4);
}

#[test]
fn str16_with_a_negative_length_or_cut_short_fails() {
    let mut negative = Parcel::from_slice(&[0xFE, 0xFF, 0xFF, 0xFF, 0, 0, 0, 0]);
    assert_eq!(negative.read_str16(), Err(Error::DeserializationError));
    assert_eq!(negative.position(), 0);
    let mut short = Parcel::from_slice(&[0x02, 0, 0, 0, 0x48, 0x00, 0x69, 0x00]);
    assert_eq!(short.read_str16(), Err(Error::DeserializationError));
    assert_eq!(short.position(), 0);
}

#[test]
fn str_bytes_and_read_back() {
    let mut parcel = Parcel::empty();
    parcel.write_str("Hi!").unwrap();
    assert_eq!(parcel.to_slice(), &[0x03, 0, 0, 0, b'H', b'i', b'!', 0]);
    parcel.write_str("h\u{e9}").unwrap();
    assert_eq!(&parcel.to_slice()[8..], &[0x03, 0, 0, 0, b'h', 0xC3, 0xA9, 0]);
    parcel.set_position(0);
    assert_eq!(parcel.read_str(), Ok("Hi!".to_string()));
    assert_eq!(parcel.read_str(), Ok("h\u{e9}".to_string()));
}

#[test]
fn str_with_bad_utf8_is_a_utf8_error() {
    let mut parcel = Parcel::from_slice(&[0x02, 0, 0, 0, 0xC3, 0x28, 0, 0]);
    assert_eq!(parcel.read_str(), Err(Error::Utf8Error));
    assert_eq!(parcel.position(), 0);
}

#[test]
fn flat_object_write_records_the_position_before_it() {
    let mut parcel = Parcel::empty();
    parcel.write_u32(7).unwrap();
    parcel.write_object(&[1, 2, 3, 4, 5, 6, 7, 8]).unwrap();
    assert_eq!(parcel.offsets().as_slice(), &[4]);
    assert_eq!(parcel.to_slice(), &[7, 0, 0, 0, 1, 2, 3, 4, 5, 6, 7, 8]);
    let before = parcel.position() as usize;
    parcel.write_binder(0x1000).unwrap();
    assert_eq!(*parcel.offsets().last().unwrap(), before);
    let before = parcel.position() as usize;
    parcel.write_file_descriptor(5, true).unwrap();
    assert_eq!(*parcel.offsets().last().unwrap(), before);
    assert_eq!(parcel.offsets_len(), 3);
    parcel.set_position(4);
    assert_eq!(parcel.read_object(8), Ok(vec![1, 2, 3, 4, 5, 6, 7, 8]));
}

#[test]
fn binder_object_bytes() {
    let mut parcel = Parcel::empty();
    parcel.write_binder(0x0102030405060708).unwrap();
    assert_eq!(
        parcel.to_slice(),
        &[
            0x85, 0x2a, 0x62, 0x73, // "sb*" and the closing byte
            0, 0, 0, 0, // flags
            0x08, 0x07, 0x06, 0x05, 0x04, 0x03, 0x02, 0x01, // the object
            0, 0, 0, 0, 0, 0, 0, 0, // cookie
            0x0c, 0, 0, 0, // stability
        ]
    );
}

#[test]
fn file_descriptor_bytes_and_read_back() {
    let mut parcel = Parcel::empty();
    parcel.write_file_descriptor(9, true).unwrap();
    assert_eq!(
        parcel.to_slice(),
        &[
            0x85, 0x2a, 0x64, 0x66, // "fd*" and the closing byte
            0x7f, 0x01, 0, 0, // flags
            9, 0, 0, 0, 0, 0, 0, 0, // the descriptor
            1, 0, 0, 0, 0, 0, 0, 0, // ownership goes to the receiver
        ]
    );
    parcel.write_file_descriptor(3, false).unwrap();
    assert_eq!(parcel.to_slice()[24 + 16], 0);
    parcel.set_position(0);
    assert_eq!(parcel.read_file_descriptor(), Ok(9));
    assert_eq!(parcel.read_file_descriptor(), Ok(3));
}

#[test]
fn reading_a_file_descriptor_from_another_object_fails() {
    let mut parcel = Parcel::empty();
    parcel.write_binder(1).unwrap();
    parcel.set_position(0);
    assert_eq!(parcel.read_file_descriptor(), Err(Error::DeserializationError));
    assert_eq!(parcel.position(), 0);
}

#[test]
fn writes_append_wherever_the_cursor_stands() {
    let mut parcel = Parcel::from_slice(&[1, 2, 3, 4, 5, 6]);
    assert_eq!(parcel.position(), 0);
    parcel.write_u16(0xBBAA).unwrap();
    assert_eq!(parcel.to_slice(), &[1, 2, 3, 4, 5, 6, 0xAA, 0xBB]);
    assert_eq!(parcel.position(), 8);
    parcel.set_position(2);
    parcel.write_u8(9).unwrap();
    assert_eq!(parcel.to_slice(), &[1, 2, 3, 4, 5, 6, 0xAA, 0xBB, 9]);
    assert_eq!(parcel.position(), 9);
    assert!(!parcel.has_unread_data());
}

#[test]
fn a_cursor_past_the_end_reads_nothing_and_writes_append() {
    let mut parcel = Parcel::from_slice(&[1]);
    parcel.set_position(3);
    assert!(parcel.has_unread_data());
    assert_eq!(parcel.read_u8(), Err(Error::DeserializationError));
    parcel.write_u8(9).unwrap();
    assert_eq!(parcel.to_slice(), &[1, 9]);
    assert_eq!(parcel.position(), 2);
}

#[test]
fn append_joins_bytes_and_offsets_wherever_the_cursor_stands() {
    let mut p = Parcel::from_data_and_offsets(&[0xAA, 0xAB], &[1]);
    let mut q = Parcel::from_data_and_offsets(&[0xBB, 0xCC], &[0, 1]);
    assert_eq!(p.position(), 0);
    p.append_parcel(&mut q).unwrap();
    assert_eq!(p.to_slice(), &[0xAA, 0xAB, 0xBB, 0xCC]);
    assert_eq!(p.offsets().as_slice(), &[1, 2, 3]);
    assert_eq!(p.position(), 4);
    assert_eq!(q.to_slice(), &[0xBB, 0xCC]);
    assert_eq!(q.offsets().as_slice(), &[0, 1]);
}

#[test]
fn objects_are_recorded_where_they_begin() {
    let mut parcel = Parcel::from_slice(&[0; 8]);
    parcel.push_object().unwrap();
    assert_eq!(parcel.offsets().as_slice(), &[8]);
    parcel.set_position(0);
    parcel.write_object(&[1, 2, 3, 4]).unwrap();
    assert_eq!(parcel.offsets().as_slice(), &[8, 8]);
    parcel.set_position(0);
    parcel.write_binder(7).unwrap();
    assert_eq!(parcel.offsets().as_slice(), &[8, 8, 12]);
}

#[test]
fn reset_returns_to_the_empty_parcel() {
    let mut parcel = Parcel::empty();
    parcel.write_binder(1).unwrap();
    parcel.reset();
    assert!(parcel.is_empty());
    assert_eq!(parcel.len(), 0);
    assert_eq!(parcel.position(), 0);
    assert_eq!(parcel.offsets_len(), 0);
    assert!(!parcel.has_unread_data());
}

#[test]
fn parcel_from_data_and_offsets_keeps_both() {
    let mut parcel = Parcel::from_data_and_offsets(&[1, 2, 3, 4], &[0, 2]);
    assert_eq!(parcel.to_slice(), &[1, 2, 3, 4]);
    assert_eq!(parcel.offsets().as_slice(), &[0, 2]);
    assert_eq!(parcel.position(), 0);
    assert!(parcel.has_unread_data());
}

#[test]
fn append_of_an_empty_parcel_changes_nothing() {
    let mut p = Parcel::empty();
    p.write_u32(1).unwrap();
    let mut q = Parcel::empty();
    p.append_parcel(&mut q).unwrap();
    assert_eq!(p.to_slice(), &[1, 0, 0, 0]);
    assert_eq!(p.offsets_len(), 0);
}

#[test]
fn offsets_table_can_be_edited() {
    let mut parcel = Parcel::empty();
    parcel.offsets().push(12);
    parcel.offsets().push(40);
    assert_eq!(parcel.offsets_len(), 2);
    assert_eq!(parcel.offsets().as_slice(), &[12, 40]);
}

#[test]
fn error_messages() {
    assert_eq!(Error::StdioError.message(), "stdio error");
    assert_eq!(Error::Utf16Error.message(), "utf error");
    assert_eq!(Error::Utf8Error.message(), "utf error");
    assert_eq!(Error::DeserializationError.message(), "deserialization error");
    assert_eq!(Error::BadEnumValue.message(), "bad enum value");
}

#[test]
fn roll_back_takes_back_what_was_written() {
    let mut parcel = Parcel::empty();
    parcel.write_u32(7).unwrap();
    let (len, offsets, position) = (parcel.len(), parcel.offsets_len(), parcel.position());
    parcel.write_binder(1).unwrap();
    parcel.write_str16("gone").unwrap();
    parcel.roll_back(len, offsets, position);
    assert_eq!(parcel.to_slice(), &[7, 0, 0, 0]);
    assert_eq!(parcel.offsets_len(), 0);
    assert_eq!(parcel.position(), 4);
    parcel.roll_back(100, 100, 2);
    assert_eq!(parcel.to_slice(), &[7, 0, 0, 0]);
    assert_eq!(parcel.position(), 2);
}

#[test]
fn read_pointer_is_a_machine_word_in_eight_bytes() {
    let mut parcel = Parcel::empty();
    parcel.write_usize(0x1000).unwrap();
    parcel.set_position(0);
    assert_eq!(parcel.read_pointer(), Ok(0x1000));
}
