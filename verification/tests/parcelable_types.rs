use binder_rust::{
    BinderFd, BinderFlatObject, BinderType, Error, Parcel, Parcelable, String16,
};

fn bytes_of<T: Parcelable>(value: &T) -> Vec<u8> {
    let mut parcel = Parcel::empty();
    value.serialize(&mut parcel).unwrap();
    parcel.to_slice().to_vec()
}

fn read_back<T: Parcelable>(value: &T) -> (Result<T, Error>, u64, usize) {
    let mut parcel = Parcel::empty();
    // something before and after, so that positions matter
    parcel.write_u32(0xDEADBEEF).unwrap();
    value.serialize(&mut parcel).unwrap();
    let end = parcel.position();
    parcel.write_u32(0xFEEDFACE).unwrap();
    parcel.set_position(4);
    let result = T::deserialize(&mut parcel);
    let offsets = parcel.offsets_len();
    assert_eq!(parcel.position(), end);
    (result, end, offsets)
}

#[test]
fn round_trip_of_unsigned_integers() {
    for v in [0u8, 1, 0x7F, 0x80, 0xFF] {
        assert_eq!(read_back(&v).0, Ok(v));
    }
    for v in [0u16, 1, 0x1234, 0xFFFF] {
        assert_eq!(read_back(&v).0, Ok(v));
    }
    for v in [0u32, 1, 0x12345678, u32::MAX] {
        assert_eq!(read_back(&v).0, Ok(v));
    }
    for v in [0u64, 1, 0x123456789ABCDEF0, u64::MAX] {
        assert_eq!(read_back(&v).0, Ok(v));
    }
    for v in [0usize, 1, 0x12345678, usize::MAX] {
        assert_eq!(read_back(&v).0, Ok(v));
    }
}

#[test]
fn round_trip_of_signed_integers() {
    for v in [0i8, 1, -1, i8::MIN, i8::MAX] {
        assert_eq!(read_back(&v).0, Ok(v));
    }
    for v in [0i16, 1, -1, i16::MIN, i16::MAX] {
        assert_eq!(read_back(&v).0, Ok(v));
    }
    for v in [0i32, 1, -1, i32::MIN, i32::MAX] {
        assert_eq!(read_back(&v).0, Ok(v));
    }
    for v in [0i64, 1, -1, i64::MIN, i64::MAX] {
        assert_eq!(read_back(&v).0, Ok(v));
    }
}

#[test]
fn signed_integers_are_twos_complement() {
    assert_eq!(bytes_of(&-1i8), vec![0xFF]);
    assert_eq!(bytes_of(&-2i16), vec![0xFE, 0xFF]);
    assert_eq!(bytes_of(&i32::MIN), vec![0x00, 0x00, 0x00, 0x80]);
    assert_eq!(bytes_of(&-1i64), vec![0xFF; 8]);
    assert_eq!(bytes_of(&i64::MIN), vec![0, 0, 0, 0, 0, 0, 0, 0x80]);
}

#[test]
fn widths_of_primitives() {
    assert_eq!(bytes_of(&1u8).len(), 1);
    assert_eq!(bytes_of(&1i8).len(), 1);
    assert_eq!(bytes_of(&1u16).len(), 2);
    assert_eq!(bytes_of(&1i16).len(), 2);
    assert_eq!(bytes_of(&1u32).len(), 4);
    assert_eq!(bytes_of(&1i32).len(), 4);
    assert_eq!(bytes_of(&1u64).len(), 8);
    assert_eq!(bytes_of(&1i64).len(), 8);
    assert_eq!(bytes_of(&1usize).len(), 8);
    assert_eq!(bytes_of(&true).len(), 4);
}

#[test]
fn round_trip_of_bool() {
    assert_eq!(read_back(&true).0, Ok(true));
    assert_eq!(read_back(&false).0, Ok(false));
    assert_eq!(bytes_of(&true), vec![1, 0, 0, 0]);
    assert_eq!(bytes_of(&false), vec![0, 0, 0, 0]);
    let mut any = Parcel::from_slice(&[0, 0, 2, 0]);
    assert_eq!(bool::deserialize(&mut any), Ok(true));
}

#[test]
fn round_trip_of_strings() {
    for text in ["", "a", "hello", "h\u{e9}llo w\u{f6}rld", "\u{1F600}\u{1F601}", "nul\0inside"] {
        assert_eq!(read_back(&text.to_string()).0, Ok(text.to_string()));
        let wide = String16(text.to_string());
        let (result, _, _) = read_back(&wide);
        assert_eq!(result.map(|s| s.0), Ok(text.to_string()));
    }
}

#[test]
fn string16_and_string_differ_on_the_wire() {
    assert_eq!(bytes_of(&"Hi".to_string()), vec![2, 0, 0, 0, b'H', b'i', 0, 0]);
    assert_eq!(
        bytes_of(&String16("Hi".to_string())),
        vec![2, 0, 0, 0, b'H', 0, b'i', 0, 0, 0, 0, 0]
    );
}

#[test]
fn round_trip_of_option() {
    assert_eq!(read_back(&Some(7i32)).0, Ok(Some(7)));
    assert_eq!(read_back(&None::<i32>).0, Ok(None));
    assert_eq!(read_back(&Some("x".to_string())).0, Ok(Some("x".to_string())));
    assert_eq!(read_back(&Some(Some(3u8))).0, Ok(Some(Some(3u8))));
    assert_eq!(read_back(&Some(None::<u8>)).0, Ok(Some(None::<u8>)));
}

#[test]
fn option_prefix_of_minus_one_is_absent() {
    let mut parcel = Parcel::from_slice(&[0xFF, 0xFF, 0xFF, 0xFF, 7, 0, 0, 0]);
    assert_eq!(Option::<i32>::deserialize(&mut parcel), Ok(None));
    assert_eq!(parcel.position(), 4);
    let mut other = Parcel::from_slice(&[2, 0, 0, 0, 7, 0, 0, 0]);
    assert_eq!(Option::<i32>::deserialize(&mut other), Ok(Some(7)));
}

#[test]
fn option_with_a_missing_payload_fails_and_rewinds() {
    let mut parcel = Parcel::from_slice(&[1, 0, 0, 0, 7, 0]);
    assert_eq!(Option::<i32>::deserialize(&mut parcel), Err(Error::DeserializationError));
    assert_eq!(parcel.position(), 0);
}

#[test]
fn round_trip_of_box() {
    assert_eq!(read_back(&Box::new(0x1234u16)).0, Ok(Box::new(0x1234u16)));
    assert_eq!(bytes_of(&Box::new(0x1234u16)), bytes_of(&0x1234u16));
}

#[test]
fn round_trip_of_sequences() {
    assert_eq!(read_back(&Vec::<u8>::new()).0, Ok(vec![]));
    assert_eq!(read_back(&vec![1u8]).0, Ok(vec![1u8]));
    assert_eq!(read_back(&vec![1u8, 2, 3, 4]).0, Ok(vec![1u8, 2, 3, 4]));
    assert_eq!(read_back(&vec![1u8, 2, 3, 4, 5]).0, Ok(vec![1u8, 2, 3, 4, 5]));
    assert_eq!(read_back(&vec![1u16, 2, 3]).0, Ok(vec![1u16, 2, 3]));
    assert_eq!(read_back(&vec![-1i32, 2]).0, Ok(vec![-1i32, 2]));
    assert_eq!(
        read_back(&vec!["a".to_string(), "bcd".to_string()]).0,
        Ok(vec!["a".to_string(), "bcd".to_string()])
    );
    assert_eq!(read_back(&vec![vec![1u8], vec![2u8, 3]]).0, Ok(vec![vec![1u8], vec![2u8, 3]]));
    assert_eq!(read_back(&vec![Some(1u8), None]).0, Ok(vec![Some(1u8), None]));
}

#[test]
fn sequence_payloads_end_on_a_multiple_of_four() {
    assert_eq!(bytes_of(&Vec::<u8>::new()), vec![0, 0, 0, 0]);
    assert_eq!(bytes_of(&vec![1u8, 2, 3, 4]), vec![4, 0, 0, 0, 1, 2, 3, 4]);
    assert_eq!(bytes_of(&vec![1u8, 2, 3, 4, 5]), vec![5, 0, 0, 0, 1, 2, 3, 4, 5, 0, 0, 0]);
    assert_eq!(bytes_of(&vec![0x0102u16]), vec![1, 0, 0, 0, 2, 1, 0, 0]);
    assert_eq!(bytes_of(&vec![7u32, 8]), vec![2, 0, 0, 0, 7, 0, 0, 0, 8, 0, 0, 0]);
}

#[test]
fn sequence_with_a_negative_or_too_large_count_fails() {
    let mut negative = Parcel::from_slice(&[0xFF, 0xFF, 0xFF, 0xFF, 1, 2, 3, 4]);
    assert_eq!(Vec::<u8>::deserialize(&mut negative), Err(Error::DeserializationError));
    assert_eq!(negative.position(), 0);
    let mut short = Parcel::from_slice(&[3, 0, 0, 0, 1, 2]);
    assert_eq!(Vec::<u8>::deserialize(&mut short), Err(Error::DeserializationError));
    assert_eq!(short.position(), 0);
    let mut unpadded = Parcel::from_slice(&[3, 0, 0, 0, 1, 2, 3]);
    assert_eq!(Vec::<u8>::deserialize(&mut unpadded), Err(Error::DeserializationError));
    assert_eq!(unpadded.position(), 0);
}

#[test]
fn round_trip_of_binder_types() {
    let tags = [
        (BinderType::Binder, 0x73622a85u32),
        (BinderType::WeakBinder, 0x77622a85),
        (BinderType::Handle, 0x73682a85),
        (BinderType::WeakHandle, 0x77682a85),
        (BinderType::Fd, 0x66642a85),
        (BinderType::Fda, 0x66646185),
        (BinderType::Ptr, 0x70742a85),
    ];
    for (kind, tag) in tags {
        assert_eq!(kind.tag(), tag);
        assert_eq!(BinderType::from_tag(tag), Some(kind));
        assert_eq!(bytes_of(&kind), tag.to_le_bytes().to_vec());
        assert_eq!(read_back(&kind).0, Ok(kind));
    }
    assert_eq!(BinderType::from_tag(0), None);
}

#[test]
fn unknown_binder_type_is_a_bad_enum_value() {
    let mut parcel = Parcel::from_slice(&[1, 2, 3, 4]);
    assert_eq!(BinderType::deserialize(&mut parcel), Err(Error::BadEnumValue));
    assert_eq!(parcel.position(), 0);
    let mut object = Parcel::from_slice(&[0u8; 28]);
    assert_eq!(BinderFlatObject::deserialize(&mut object), Err(Error::BadEnumValue));
}

#[test]
fn round_trip_of_flat_objects() {
    let object = BinderFlatObject::new(BinderType::Handle, 42, 7, 0x13);
    assert_eq!(object.handle(), 42);
    assert_eq!(object.cookie(), 7);
    assert_eq!(object.stability, 0xc);
    let (result, _, offsets) = read_back(&object);
    assert_eq!(result, Ok(object));
    assert_eq!(offsets, 1);
    assert_eq!(bytes_of(&object).len(), 28);

    let fd = BinderFd::new(BinderType::Fd, 3, 1, 0x17f);
    assert_eq!(fd.handle(), 3);
    assert_eq!(fd.cookie(), 1);
    let (result, _, offsets) = read_back(&fd);
    assert_eq!(result, Ok(fd));
    assert_eq!(offsets, 1);
    assert_eq!(bytes_of(&fd).len(), 24);
}

#[test]
fn flat_object_serialize_records_its_offset() {
    let mut parcel = Parcel::empty();
    parcel.write_u64(0).unwrap();
    BinderFlatObject::new(BinderType::Binder, 1, 2, 3).serialize(&mut parcel).unwrap();
    BinderFd::new(BinderType::Fd, 4, 0, 0x17f).serialize(&mut parcel).unwrap();
    assert_eq!(parcel.offsets().as_slice(), &[8, 36]);
    assert_eq!(parcel.len(), 8 + 28 + 24);
}

#[test]
fn flat_object_cut_short_fails_and_rewinds() {
    let bytes = bytes_of(&BinderFlatObject::new(BinderType::Binder, 1, 2, 3));
    let mut parcel = Parcel::from_slice(&bytes[..27]);
    assert_eq!(BinderFlatObject::deserialize(&mut parcel), Err(Error::DeserializationError));
    assert_eq!(parcel.position(), 0);
}

#[test]
fn round_trip_of_pairs() {
    assert_eq!(read_back(&(1u8, 2u32)).0, Ok((1u8, 2u32)));
    assert_eq!(read_back(&("k".to_string(), -5i64)).0, Ok(("k".to_string(), -5i64)));
    assert_eq!(bytes_of(&(1u8, 2u32)), vec![1, 2, 0, 0, 0]);
}

#[test]
fn round_trip_of_mappings() {
    let mapping = binder_rust::Mapping {
        entries: vec![("one".to_string(), 1u32), ("two".to_string(), 2u32)],
    };
    let (result, _, _) = read_back(&mapping);
    assert_eq!(
        result.map(|m| m.entries),
        Ok(vec![("one".to_string(), 1u32), ("two".to_string(), 2u32)])
    );
    let empty = binder_rust::Mapping::<u8, u8> { entries: vec![] };
    assert_eq!(bytes_of(&empty), vec![0, 0, 0, 0]);
    assert_eq!(read_back(&empty).0.map(|m| m.entries), Ok(vec![]));
}

#[test]
fn mapping_is_count_then_key_value_pairs() {
    let mapping = binder_rust::Mapping { entries: vec![(1u8, 0x0203u16), (4u8, 0x0506u16)] };
    assert_eq!(bytes_of(&mapping), vec![2, 0, 0, 0, 1, 3, 2, 4, 6, 5]);
}

#[test]
fn mapping_with_a_negative_count_is_empty_and_cut_short_fails() {
    let mut negative = Parcel::from_slice(&[0xFF, 0xFF, 0xFF, 0xFF, 1, 2]);
    assert_eq!(
        binder_rust::Mapping::<u8, u8>::deserialize(&mut negative).map(|m| m.entries),
        Ok(vec![])
    );
    assert_eq!(negative.position(), 4);
    let mut short = Parcel::from_slice(&[2, 0, 0, 0, 1, 2, 3]);
    assert_eq!(
        binder_rust::Mapping::<u8, u8>::deserialize(&mut short).map(|m| m.entries),
        Err(Error::DeserializationError)
    );
    assert_eq!(short.position(), 0);
}
