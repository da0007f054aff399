//! The contract between a type and the parcel: how a value is written, how
//! it is read back, and that the two agree.

use crate::error::Error;
use crate::parcel::{
    i32_at, lemma_pad4, lemma_put_put, lemma_round4, lemma_str16_round_trip,
    lemma_str_round_trip, pad4, parse_str, parse_str16, round4, str16_wire, str_wire, zeros,
    Parcel, ParcelView,
};
use crate::utf16::utf16;
use crate::wire::{
    bits_of_i32, from_le16, from_le32, from_le64, i32_of_bits, le16, le32, le64,
    lemma_le_round_trip,
};
use vstd::prelude::*;
use vstd::utf8::encode_utf8;

verus! {

/// What a value contributes to a parcel: its bytes, and the places in
/// those bytes, counted from their start, at which flat objects begin.
pub struct Frame {
    pub bytes: Seq<u8>,
    pub objects: Seq<int>,
}

impl Frame {
    /// A frame of bytes that hold no flat object.
    pub open spec fn plain(bytes: Seq<u8>) -> Frame {
        Frame { bytes, objects: Seq::empty() }
    }

    /// A frame whose bytes are one flat object.
    pub open spec fn object(bytes: Seq<u8>) -> Frame {
        Frame { bytes, objects: seq![0int] }
    }

    /// This frame followed by `next`.
    pub open spec fn join(self, next: Frame) -> Frame {
        Frame {
            bytes: self.bytes + next.bytes,
            objects: self.objects + Seq::new(
                next.objects.len(),
                |i: int| next.objects[i] + self.bytes.len(),
            ),
        }
    }

    /// This frame with its bytes zero-padded to a multiple of four.
    pub open spec fn padded(self) -> Frame {
        Frame { bytes: pad4(self.bytes), objects: self.objects }
    }

    /// Every flat object of the frame begins inside its bytes.
    pub open spec fn well_placed(self) -> bool {
        forall|i: int|
            0 <= i < self.objects.len() ==> 0 <= (#[trigger] self.objects[i]) < self.bytes.len()
    }
}

impl ParcelView {
    /// The parcel after `frame` was written: its bytes are appended, and
    /// its objects are recorded at the places where they then lie.
    pub open spec fn put_frame(self, frame: Frame) -> ParcelView {
        ParcelView {
            offsets: self.offsets + Seq::new(
                frame.objects.len(),
                |i: int| (self.data.len() + frame.objects[i]) as usize,
            ),
            ..self.put(frame.bytes)
        }
    }

    /// The bytes at the cursor are those of `frame`.
    pub open spec fn holds(self, frame: Frame) -> bool {
        self.has(frame.bytes.len() as int) && self.peek(frame.bytes.len() as int) == frame.bytes
    }
}

/// Writing two frames in a row is writing them joined.
pub proof fn lemma_put_frame_join(p: ParcelView, a: Frame, b: Frame)
    ensures
        p.put_frame(a).put_frame(b) == p.put_frame(a.join(b)),
{
    lemma_put_put(p, a.bytes, b.bytes);
    assert(p.put_frame(a).put_frame(b).offsets =~= p.put_frame(a.join(b)).offsets);
}

/// Once a frame that was written is taken back, the parcel holds what it
/// held before.
pub proof fn lemma_take_back(p: ParcelView, frame: Frame)
    ensures
        p.put_frame(frame).data.take(p.data.len() as int) == p.data,
        p.put_frame(frame).offsets.take(p.offsets.len() as int) == p.offsets,
{
    assert(p.put_frame(frame).data.take(p.data.len() as int) =~= p.data);
    assert(p.put_frame(frame).offsets.take(p.offsets.len() as int) =~= p.offsets);
}

/// Writing a frame without objects is writing its bytes.
pub proof fn lemma_put_frame_plain(p: ParcelView, bytes: Seq<u8>)
    ensures
        p.put_frame(Frame::plain(bytes)) == p.put(bytes),
{
    assert(p.put_frame(Frame::plain(bytes)).offsets =~= p.put(bytes).offsets);
}

/// Frames whose objects begin inside their bytes join to such a frame, and
/// writing such a frame to a parcel whose offsets lie inside its bytes
/// leaves a parcel of which the same holds.
pub proof fn lemma_well_placed(p: ParcelView, a: Frame, b: Frame)
    requires
        a.well_placed(),
        b.well_placed(),
    ensures
        a.join(b).well_placed(),
        p.offsets_in_bounds() && p.fits(a.bytes.len() as int) ==> p.put_frame(
            a,
        ).offsets_in_bounds(),
{
    assert forall|i: int| 0 <= i < a.join(b).objects.len() implies 0 <= (#[trigger] a.join(
        b,
    ).objects[i]) < a.join(b).bytes.len() by {
        if i < a.objects.len() {
            assert(0 <= a.objects[i] < a.bytes.len());
        } else {
            assert(0 <= b.objects[i - a.objects.len()] < b.bytes.len());
        }
    }
    if p.offsets_in_bounds() && p.fits(a.bytes.len() as int) {
        let after = p.put_frame(a);
        assert forall|i: int| 0 <= i < after.offsets.len() implies (#[trigger] after.offsets[i])
            < after.data.len() by {
            if i < p.offsets.len() {
                assert(p.offsets[i] < p.data.len());
            } else {
                assert(0 <= a.objects[i - p.offsets.len()] < a.bytes.len());
            }
        }
    }
}

/// Writing a frame that is one flat object records the place where the
/// object begins, the old end of the bytes, as the last offset.
pub proof fn lemma_object_offset(p: ParcelView, bytes: Seq<u8>)
    ensures
        p.put_frame(Frame::object(bytes)) == p.mark().put(bytes),
        p.data.len() <= usize::MAX ==> p.put_frame(Frame::object(bytes)).offsets.last()
            == p.data.len(),
{
    assert(p.put_frame(Frame::object(bytes)).offsets =~= p.mark().put(bytes).offsets);
}

/// A parcel that holds two joined frames holds the first at the cursor and
/// the second right after it.
pub proof fn lemma_holds_join(p: ParcelView, a: Frame, b: Frame)
    requires
        p.holds(a.join(b)),
    ensures
        p.holds(a),
        p.skip(a.bytes.len() as int).holds(b),
{
    let n = a.bytes.len() as int;
    let m = b.bytes.len() as int;
    assert(p.peek(n) =~= (a.bytes + b.bytes).subrange(0, n));
    assert(p.peek(n) =~= a.bytes);
    assert(p.skip(n).peek(m) =~= (a.bytes + b.bytes).subrange(n, n + m));
    assert(p.skip(n).peek(m) =~= b.bytes);
}

/// How the write of `frame` relates the parcel before and after to the
/// result: with room for the bytes of the frame it is written; without,
/// the write fails with an i/o error and the parcel is as before.
pub open spec fn sent(pre: ParcelView, post: ParcelView, r: Result<(), Error>, frame: Frame) -> bool {
    if pre.fits(frame.bytes.len() as int) {
        r is Ok && post == pre.put_frame(frame)
    } else {
        r == Err::<(), Error>(Error::StdioError) && post == pre
    }
}

/// A type whose values travel in parcels.
pub trait Parcelable: Sized {
    /// What a value of the type is, as a mathematical object.
    type Model;

    /// The mathematical object that this value is.
    spec fn model(&self) -> Self::Model;

    /// Whether the wire format can carry the value.
    spec fn legal(model: Self::Model) -> bool;

    /// What the value contributes to a parcel.
    spec fn frame(model: Self::Model) -> Frame;

    /// What reading a value at the cursor gives: the value and the position
    /// after it, or the error.
    spec fn parse(p: ParcelView) -> Result<(Self::Model, nat), Error>;

    /// Reading what was written gives the value back: a parcel that holds
    /// the frame of a legal value at its cursor parses to that value, and
    /// to the position after the frame.
    proof fn lemma_round_trip(model: Self::Model, p: ParcelView)
        requires
            Self::legal(model),
            p.holds(Self::frame(model)),
        ensures
            Self::parse(p) == Ok::<(Self::Model, nat), Error>(
                (model, p.position + Self::frame(model).bytes.len()),
            ),
    ;

    /// Read a value from the parcel.
    fn deserialize(parcel: &mut Parcel) -> (r: Result<Self, Error>)
        ensures
            match Self::parse(old(parcel)@) {
                Ok((model, end)) => r is Ok && r->Ok_0.model() == model && final(parcel)@ == old(
                    parcel,
                )@.at(end),
                Err(e) => r is Err && r->Err_0 == e && final(parcel)@ == old(parcel)@,
            },
    ;

    /// Write this value to the parcel: all of it, or nothing where there
    /// is no room for all of it.
    fn serialize(&self, parcel: &mut Parcel) -> (r: Result<(), Error>)
        ensures
            sent(old(parcel)@, final(parcel)@, r, Self::frame(self.model())),
    ;
}

/// The law of the round trip, for every type and every parcel: after a
/// legal value was written to a parcel, reading from the place where the
/// write began gives the value and ends where the write ended.
pub proof fn lemma_serialize_then_deserialize<T: Parcelable>(model: T::Model, p: ParcelView)
    requires
        T::legal(model),
    ensures
        T::parse(p.put_frame(T::frame(model)).at(p.data.len())) == Ok::<(T::Model, nat), Error>(
            (model, p.put_frame(T::frame(model)).position),
        ),
{
    let bytes = T::frame(model).bytes;
    let q = p.put_frame(T::frame(model)).at(p.data.len());
    assert(q.peek(bytes.len() as int) =~= bytes);
    T::lemma_round_trip(model, q);
}

/// The unsigned pattern of a signed byte (two's complement).
pub open spec fn bits_of_i8(x: i8) -> u8 {
    if x >= 0 {
        x as u8
    } else {
        (x + 0x100) as u8
    }
}

/// The signed byte of an unsigned pattern (two's complement).
pub open spec fn i8_of_bits(u: u8) -> i8 {
    if u < 0x80 {
        u as i8
    } else {
        (u - 0x100) as i8
    }
}

/// The unsigned pattern of a signed 16-bit value (two's complement).
pub open spec fn bits_of_i16(x: i16) -> u16 {
    if x >= 0 {
        x as u16
    } else {
        (x + 0x1_0000) as u16
    }
}

/// The signed 16-bit value of an unsigned pattern (two's complement).
pub open spec fn i16_of_bits(u: u16) -> i16 {
    if u < 0x8000 {
        u as i16
    } else {
        (u - 0x1_0000) as i16
    }
}

/// The unsigned pattern of a signed 64-bit value (two's complement).
pub open spec fn bits_of_i64(x: i64) -> u64 {
    if x >= 0 {
        x as u64
    } else {
        (x + 0x1_0000_0000_0000_0000) as u64
    }
}

/// The signed 64-bit value of an unsigned pattern (two's complement).
pub open spec fn i64_of_bits(u: u64) -> i64 {
    if u < 0x8000_0000_0000_0000 {
        u as i64
    } else {
        (u - 0x1_0000_0000_0000_0000) as i64
    }
}

impl Parcelable for u8 {
    type Model = u8;

    open spec fn model(&self) -> u8 {
        *self
    }

    open spec fn legal(model: u8) -> bool {
        true
    }

    open spec fn frame(model: u8) -> Frame {
        Frame::plain(seq![model])
    }

    open spec fn parse(p: ParcelView) -> Result<(u8, nat), Error> {
        if p.has(1) {
            Ok((p.peek(1)[0], (p.position + 1) as nat))
        } else {
            Err(Error::DeserializationError)
        }
    }

    proof fn lemma_round_trip(model: u8, p: ParcelView) {
        lemma_le_round_trip(0, 0, 0, 0);
        assert(p.peek(1)[0] == Self::frame(model).bytes[0]);
    }

    fn deserialize(parcel: &mut Parcel) -> (r: Result<u8, Error>) {
        parcel.read_u8()
    }

    fn serialize(&self, parcel: &mut Parcel) -> (r: Result<(), Error>) {
        proof {
            lemma_put_frame_plain(old(parcel)@, Self::frame(*self).bytes);
        }
        parcel.write_u8(*self)
    }
}

impl Parcelable for i8 {
    type Model = i8;

    open spec fn model(&self) -> i8 {
        *self
    }

    open spec fn legal(model: i8) -> bool {
        true
    }

    open spec fn frame(model: i8) -> Frame {
        Frame::plain(seq![bits_of_i8(model)])
    }

    open spec fn parse(p: ParcelView) -> Result<(i8, nat), Error> {
        if p.has(1) {
            Ok((i8_of_bits(p.peek(1)[0]), (p.position + 1) as nat))
        } else {
            Err(Error::DeserializationError)
        }
    }

    proof fn lemma_round_trip(model: i8, p: ParcelView) {
        lemma_le_round_trip(0, 0, 0, 0);
        assert(p.peek(1)[0] == Self::frame(model).bytes[0]);
    }

    fn deserialize(parcel: &mut Parcel) -> (r: Result<i8, Error>) {
        match parcel.read_u8() {
            Ok(bits) => Ok(if bits < 0x80 {
                bits as i8
            } else {
                (bits as i16 - 0x100) as i8
            }),
            Err(e) => Err(e),
        }
    }

    fn serialize(&self, parcel: &mut Parcel) -> (r: Result<(), Error>) {
        proof {
            lemma_put_frame_plain(old(parcel)@, Self::frame(*self).bytes);
        }
        let bits: u8 = if *self >= 0 {
            *self as u8
        } else {
            (*self as i16 + 0x100) as u8
        };
        parcel.write_u8(bits)
    }
}

impl Parcelable for u16 {
    type Model = u16;

    open spec fn model(&self) -> u16 {
        *self
    }

    open spec fn legal(model: u16) -> bool {
        true
    }

    open spec fn frame(model: u16) -> Frame {
        Frame::plain(le16(model))
    }

    open spec fn parse(p: ParcelView) -> Result<(u16, nat), Error> {
        if p.has(2) {
            Ok((from_le16(p.peek(2)), (p.position + 2) as nat))
        } else {
            Err(Error::DeserializationError)
        }
    }

    proof fn lemma_round_trip(model: u16, p: ParcelView) {
        lemma_le_round_trip(model, 0, 0, 0);
        
    }

    fn deserialize(parcel: &mut Parcel) -> (r: Result<u16, Error>) {
        parcel.read_u16()
    }

    fn serialize(&self, parcel: &mut Parcel) -> (r: Result<(), Error>) {
        proof {
            lemma_put_frame_plain(old(parcel)@, Self::frame(*self).bytes);
        }
        parcel.write_u16(*self)
    }
}

impl Parcelable for i16 {
    type Model = i16;

    open spec fn model(&self) -> i16 {
        *self
    }

    open spec fn legal(model: i16) -> bool {
        true
    }

    open spec fn frame(model: i16) -> Frame {
        Frame::plain(le16(bits_of_i16(model)))
    }

    open spec fn parse(p: ParcelView) -> Result<(i16, nat), Error> {
        if p.has(2) {
            Ok((i16_of_bits(from_le16(p.peek(2))), (p.position + 2) as nat))
        } else {
            Err(Error::DeserializationError)
        }
    }

    proof fn lemma_round_trip(model: i16, p: ParcelView) {
        lemma_le_round_trip(bits_of_i16(model), 0, 0, 0);
        
    }

    fn deserialize(parcel: &mut Parcel) -> (r: Result<i16, Error>) {
        match parcel.read_u16() {
            Ok(bits) => Ok(if bits < 0x8000 {
                bits as i16
            } else {
                (bits as i32 - 0x1_0000) as i16
            }),
            Err(e) => Err(e),
        }
    }

    fn serialize(&self, parcel: &mut Parcel) -> (r: Result<(), Error>) {
        proof {
            lemma_put_frame_plain(old(parcel)@, Self::frame(*self).bytes);
        }
        let bits: u16 = if *self >= 0 {
            *self as u16
        } else {
            (*self as i32 + 0x1_0000) as u16
        };
        parcel.write_u16(bits)
    }
}

impl Parcelable for i32 {
    type Model = i32;

    open spec fn model(&self) -> i32 {
        *self
    }

    open spec fn legal(model: i32) -> bool {
        true
    }

    open spec fn frame(model: i32) -> Frame {
        Frame::plain(le32(bits_of_i32(model)))
    }

    open spec fn parse(p: ParcelView) -> Result<(i32, nat), Error> {
        if p.has(4) {
            Ok((i32_of_bits(from_le32(p.peek(4))), (p.position + 4) as nat))
        } else {
            Err(Error::DeserializationError)
        }
    }

    proof fn lemma_round_trip(model: i32, p: ParcelView) {
        lemma_le_round_trip(0, bits_of_i32(model), 0, model);
        
    }

    fn deserialize(parcel: &mut Parcel) -> (r: Result<i32, Error>) {
        parcel.read_i32()
    }

    fn serialize(&self, parcel: &mut Parcel) -> (r: Result<(), Error>) {
        proof {
            lemma_put_frame_plain(old(parcel)@, Self::frame(*self).bytes);
        }
        parcel.write_i32(*self)
    }
}

impl Parcelable for u32 {
    type Model = u32;

    open spec fn model(&self) -> u32 {
        *self
    }

    open spec fn legal(model: u32) -> bool {
        true
    }

    open spec fn frame(model: u32) -> Frame {
        Frame::plain(le32(model))
    }

    open spec fn parse(p: ParcelView) -> Result<(u32, nat), Error> {
        if p.has(4) {
            Ok((from_le32(p.peek(4)), (p.position + 4) as nat))
        } else {
            Err(Error::DeserializationError)
        }
    }

    proof fn lemma_round_trip(model: u32, p: ParcelView) {
        lemma_le_round_trip(0, model, 0, 0);
        
    }

    fn deserialize(parcel: &mut Parcel) -> (r: Result<u32, Error>) {
        parcel.read_u32()
    }

    fn serialize(&self, parcel: &mut Parcel) -> (r: Result<(), Error>) {
        proof {
            lemma_put_frame_plain(old(parcel)@, Self::frame(*self).bytes);
        }
        parcel.write_u32(*self)
    }
}

impl Parcelable for i64 {
    type Model = i64;

    open spec fn model(&self) -> i64 {
        *self
    }

    open spec fn legal(model: i64) -> bool {
        true
    }

    open spec fn frame(model: i64) -> Frame {
        Frame::plain(le64(bits_of_i64(model)))
    }

    open spec fn parse(p: ParcelView) -> Result<(i64, nat), Error> {
        if p.has(8) {
            Ok((i64_of_bits(from_le64(p.peek(8))), (p.position + 8) as nat))
        } else {
            Err(Error::DeserializationError)
        }
    }

    proof fn lemma_round_trip(model: i64, p: ParcelView) {
        lemma_le_round_trip(0, 0, 0, 0);
        lemma_le_round_trip(0, 0, bits_of_i64(model), 0);
    }

    fn deserialize(parcel: &mut Parcel) -> (r: Result<i64, Error>) {
        match parcel.read_u64() {
            Ok(bits) => Ok(if bits < 0x8000_0000_0000_0000 {
                bits as i64
            } else {
                (bits as i128 - 0x1_0000_0000_0000_0000) as i64
            }),
            Err(e) => Err(e),
        }
    }

    fn serialize(&self, parcel: &mut Parcel) -> (r: Result<(), Error>) {
        proof {
            lemma_put_frame_plain(old(parcel)@, Self::frame(*self).bytes);
        }
        let bits: u64 = if *self >= 0 {
            *self as u64
        } else {
            (*self as i128 + 0x1_0000_0000_0000_0000) as u64
        };
        parcel.write_u64(bits)
    }
}

impl Parcelable for u64 {
    type Model = u64;

    open spec fn model(&self) -> u64 {
        *self
    }

    open spec fn legal(model: u64) -> bool {
        true
    }

    open spec fn frame(model: u64) -> Frame {
        Frame::plain(le64(model))
    }

    open spec fn parse(p: ParcelView) -> Result<(u64, nat), Error> {
        if p.has(8) {
            Ok((from_le64(p.peek(8)), (p.position + 8) as nat))
        } else {
            Err(Error::DeserializationError)
        }
    }

    proof fn lemma_round_trip(model: u64, p: ParcelView) {
        lemma_le_round_trip(0, 0, 0, 0);
        lemma_le_round_trip(0, 0, model, 0);
    }

    fn deserialize(parcel: &mut Parcel) -> (r: Result<u64, Error>) {
        parcel.read_u64()
    }

    fn serialize(&self, parcel: &mut Parcel) -> (r: Result<(), Error>) {
        proof {
            lemma_put_frame_plain(old(parcel)@, Self::frame(*self).bytes);
        }
        parcel.write_u64(*self)
    }
}

impl Parcelable for usize {
    type Model = usize;

    open spec fn model(&self) -> usize {
        *self
    }

    open spec fn legal(model: usize) -> bool {
        true
    }

    open spec fn frame(model: usize) -> Frame {
        Frame::plain(le64(model as u64))
    }

    open spec fn parse(p: ParcelView) -> Result<(usize, nat), Error> {
        if p.has(8) && from_le64(p.peek(8)) <= usize::MAX {
            Ok((from_le64(p.peek(8)) as usize, (p.position + 8) as nat))
        } else {
            Err(Error::DeserializationError)
        }
    }

    proof fn lemma_round_trip(model: usize, p: ParcelView) {
        lemma_le_round_trip(0, 0, model as u64, 0);
    }

    fn deserialize(parcel: &mut Parcel) -> (r: Result<usize, Error>) {
        parcel.read_usize()
    }

    fn serialize(&self, parcel: &mut Parcel) -> (r: Result<(), Error>) {
        proof {
            lemma_put_frame_plain(old(parcel)@, Self::frame(*self).bytes);
        }
        parcel.write_usize(*self)
    }
}

impl Parcelable for bool {
    type Model = bool;

    open spec fn model(&self) -> bool {
        *self
    }

    open spec fn legal(model: bool) -> bool {
        true
    }

    open spec fn frame(model: bool) -> Frame {
        Frame::plain(le32(bits_of_i32(if model { 1i32 } else { 0i32 })))
    }

    open spec fn parse(p: ParcelView) -> Result<(bool, nat), Error> {
        if p.has(4) {
            Ok((i32_at(p) != 0, (p.position + 4) as nat))
        } else {
            Err(Error::DeserializationError)
        }
    }

    proof fn lemma_round_trip(model: bool, p: ParcelView) {
        lemma_le_round_trip(0, 0, 0, 0);
        lemma_le_round_trip(0, 1, 0, 1);
    }

    fn deserialize(parcel: &mut Parcel) -> (r: Result<bool, Error>) {
        match parcel.read_i32() {
            Ok(word) => Ok(word != 0),
            Err(e) => Err(e),
        }
    }

    fn serialize(&self, parcel: &mut Parcel) -> (r: Result<(), Error>) {
        proof {
            lemma_put_frame_plain(old(parcel)@, Self::frame(*self).bytes);
        }
        parcel.write_i32(if *self { 1 } else { 0 })
    }
}

impl Parcelable for String {
    type Model = Seq<char>;

    open spec fn model(&self) -> Seq<char> {
        self@
    }

    open spec fn legal(model: Seq<char>) -> bool {
        encode_utf8(model).len() <= i32::MAX
    }

    open spec fn frame(model: Seq<char>) -> Frame {
        Frame::plain(str_wire(model))
    }

    open spec fn parse(p: ParcelView) -> Result<(Seq<char>, nat), Error> {
        parse_str(p)
    }

    proof fn lemma_round_trip(model: Seq<char>, p: ParcelView) {
        lemma_str_round_trip(p, model);
    }

    fn deserialize(parcel: &mut Parcel) -> (r: Result<String, Error>) {
        parcel.read_str()
    }

    fn serialize(&self, parcel: &mut Parcel) -> (r: Result<(), Error>) {
        proof {
            lemma_put_frame_plain(old(parcel)@, str_wire(self@));
        }
        parcel.write_str(self.as_str())
    }
}

/// A string that travels as UTF-16.
#[derive(Debug)]
pub struct String16(pub String);

impl Parcelable for String16 {
    type Model = Seq<char>;

    open spec fn model(&self) -> Seq<char> {
        self.0@
    }

    open spec fn legal(model: Seq<char>) -> bool {
        utf16(model).len() <= i32::MAX
    }

    open spec fn frame(model: Seq<char>) -> Frame {
        Frame::plain(str16_wire(model))
    }

    open spec fn parse(p: ParcelView) -> Result<(Seq<char>, nat), Error> {
        parse_str16(p)
    }

    proof fn lemma_round_trip(model: Seq<char>, p: ParcelView) {
        lemma_str16_round_trip(p, model);
    }

    fn deserialize(parcel: &mut Parcel) -> (r: Result<String16, Error>) {
        match parcel.read_str16() {
            Ok(text) => Ok(String16(text)),
            Err(e) => Err(e),
        }
    }

    fn serialize(&self, parcel: &mut Parcel) -> (r: Result<(), Error>) {
        proof {
            lemma_put_frame_plain(old(parcel)@, str16_wire(self.0@));
        }
        parcel.write_str16(self.0.as_str())
    }
}

impl<T: Parcelable> Parcelable for Option<T> {
    type Model = Option<T::Model>;

    open spec fn model(&self) -> Option<T::Model> {
        match self {
            Some(value) => Some(value.model()),
            None => None,
        }
    }

    open spec fn legal(model: Option<T::Model>) -> bool {
        match model {
            Some(value) => T::legal(value),
            None => true,
        }
    }

    open spec fn frame(model: Option<T::Model>) -> Frame {
        match model {
            Some(value) => Frame::plain(le32(bits_of_i32(1))).join(T::frame(value)),
            None => Frame::plain(le32(bits_of_i32(0))),
        }
    }

    open spec fn parse(p: ParcelView) -> Result<(Option<T::Model>, nat), Error> {
        if !p.has(4) {
            Err(Error::DeserializationError)
        } else if i32_at(p) == 0 || i32_at(p) == -1 {
            Ok((None, (p.position + 4) as nat))
        } else {
            match T::parse(p.skip(4)) {
                Ok((value, end)) => Ok((Some(value), end)),
                Err(e) => Err(e),
            }
        }
    }

    proof fn lemma_round_trip(model: Option<T::Model>, p: ParcelView) {
        lemma_le_round_trip(0, 0, 0, 0);
        lemma_le_round_trip(0, 0, 0, 1);
        match model {
            Some(value) => {
                let prefix = Frame::plain(le32(bits_of_i32(1)));
                lemma_holds_join(p, prefix, T::frame(value));
                T::lemma_round_trip(value, p.skip(4));
            },
            None => {},
        }
    }

    fn deserialize(parcel: &mut Parcel) -> (r: Result<Option<T>, Error>) {
        let before: u64 = parcel.position();
        let prefix: i32 = match parcel.read_i32() {
            Ok(prefix) => prefix,
            Err(e) => {
                return Err(e);
            },
        };
        if prefix != 0 && prefix != -1 {
            match T::deserialize(parcel) {
                Ok(value) => Ok(Some(value)),
                Err(e) => {
                    parcel.set_position(before);
                    Err(e)
                },
            }
        } else {
            Ok(None)
        }
    }

    fn serialize(&self, parcel: &mut Parcel) -> (r: Result<(), Error>) {
        match self {
            Some(value) => {
                proof {
                    let prefix = Frame::plain(le32(bits_of_i32(1)));
                    lemma_put_frame_plain(old(parcel)@, prefix.bytes);
                    lemma_put_frame_join(old(parcel)@, prefix, T::frame(value.model()));
                }
                let len: usize = parcel.len();
                let offsets: usize = parcel.offsets_len();
                let position: u64 = parcel.position();
                match parcel.write_i32(1) {
                    Ok(()) => {},
                    Err(e) => {
                        return Err(e);
                    },
                }
                match value.serialize(parcel) {
                    Ok(()) => Ok(()),
                    Err(e) => {
                        proof {
                            lemma_take_back(old(parcel)@, Frame::plain(le32(bits_of_i32(1))));
                        }
                        parcel.roll_back(len, offsets, position);
                        Err(e)
                    },
                }
            },
            None => {
                proof {
                    lemma_put_frame_plain(old(parcel)@, le32(bits_of_i32(0)));
                }
                parcel.write_i32(0)
            },
        }
    }
}

impl<T: Parcelable> Parcelable for Box<T> {
    type Model = T::Model;

    open spec fn model(&self) -> T::Model {
        (**self).model()
    }

    open spec fn legal(model: T::Model) -> bool {
        T::legal(model)
    }

    open spec fn frame(model: T::Model) -> Frame {
        T::frame(model)
    }

    open spec fn parse(p: ParcelView) -> Result<(T::Model, nat), Error> {
        T::parse(p)
    }

    proof fn lemma_round_trip(model: T::Model, p: ParcelView) {
        T::lemma_round_trip(model, p);
    }

    fn deserialize(parcel: &mut Parcel) -> (r: Result<Box<T>, Error>) {
        match T::deserialize(parcel) {
            Ok(value) => Ok(Box::new(value)),
            Err(e) => Err(e),
        }
    }

    fn serialize(&self, parcel: &mut Parcel) -> (r: Result<(), Error>) {
        (**self).serialize(parcel)
    }
}

/// The frames of `items`, one after another.
pub open spec fn frames<T: Parcelable>(items: Seq<T::Model>) -> Frame
    decreases items.len(),
{
    if items.len() == 0 {
        Frame::plain(Seq::empty())
    } else {
        frames::<T>(items.drop_last()).join(T::frame(items.last()))
    }
}

/// What reading `n` values in a row gives, starting at the cursor: the
/// values and the position after the last, or the first error.
pub open spec fn parse_items<T: Parcelable>(p: ParcelView, n: nat) -> Result<
    (Seq<T::Model>, nat),
    Error,
>
    decreases n,
{
    if n == 0 {
        Ok((Seq::empty(), p.position))
    } else {
        match parse_items::<T>(p, (n - 1) as nat) {
            Ok((items, end)) => match T::parse(p.at(end)) {
                Ok((item, after)) => Ok((items.push(item), after)),
                Err(e) => Err(e),
            },
            Err(e) => Err(e),
        }
    }
}

/// The models of the elements of a vector.
pub open spec fn models<T: Parcelable>(items: Seq<T>) -> Seq<T::Model> {
    Seq::new(items.len(), |i: int| items[i].model())
}

/// The frames of some items are the first part of the frames of more items.
pub proof fn lemma_frames_grow<T: Parcelable>(items: Seq<T::Model>, k: int)
    requires
        0 <= k <= items.len(),
    ensures
        frames::<T>(items.take(k)).bytes.len() <= frames::<T>(items).bytes.len(),
    decreases items.len() - k,
{
    if k < items.len() {
        lemma_frames_grow::<T>(items, k + 1);
        assert(items.take(k + 1).drop_last() =~= items.take(k));
    } else {
        assert(items.take(k) =~= items);
    }
}

/// A parcel that holds the frames of legal values one after another reads
/// as those values, up to the end of the last frame.
pub proof fn lemma_items_round_trip<T: Parcelable>(items: Seq<T::Model>, p: ParcelView)
    requires
        forall|i: int| 0 <= i < items.len() ==> T::legal(#[trigger] items[i]),
        p.holds(frames::<T>(items)),
    ensures
        parse_items::<T>(p, items.len()) == Ok::<(Seq<T::Model>, nat), Error>(
            (items, p.position + frames::<T>(items).bytes.len()),
        ),
    decreases items.len(),
{
    if items.len() > 0 {
        let init = items.drop_last();
        let last = items.last();
        lemma_holds_join(p, frames::<T>(init), T::frame(last));
        lemma_items_round_trip::<T>(init, p);
        let mid = p.position + frames::<T>(init).bytes.len();
        assert(p.at(mid) == p.skip(frames::<T>(init).bytes.len() as int));
        T::lemma_round_trip(last, p.at(mid));
        assert(init.push(last) =~= items);
        assert(frames::<T>(items).bytes.len() == frames::<T>(init).bytes.len() + T::frame(
            last,
        ).bytes.len());
        assert(parse_items::<T>(p, (items.len() - 1) as nat) == Ok::<
            (Seq<T::Model>, nat),
            Error,
        >((init, mid as nat)));
    } else {
        assert(items =~= Seq::empty());
    }
}

/// Once reading values in a row has failed, reading more of them fails the same way.
pub proof fn lemma_items_error<T: Parcelable>(p: ParcelView, k: nat, n: nat)
    requires
        k <= n,
        parse_items::<T>(p, k) is Err,
    ensures
        parse_items::<T>(p, n) == parse_items::<T>(p, k),
    decreases n,
{
    if k < n {
        lemma_items_error::<T>(p, k, (n - 1) as nat);
    }
}

/// Step over the zero bytes that bring what was read since `start` to a
/// multiple of four, if the parcel holds them.
fn skip_padding(parcel: &mut Parcel, start: u64) -> (stepped: bool)
    ensures
        stepped == (start <= old(parcel)@.position && start + round4(
            old(parcel)@.position - start,
        ) <= old(parcel)@.data.len()),
        stepped ==> final(parcel)@ == old(parcel)@.at(
            (start + round4(old(parcel)@.position - start)) as nat,
        ),
        !stepped ==> final(parcel)@ == old(parcel)@,
{
    let end: u64 = parcel.position();
    let len: u64 = parcel.len() as u64;
    if end < start || end > len {
        proof {
            if start <= end {
                lemma_round4(end - start);
            }
        }
        return false;
    }
    let used: u64 = end - start;
    let pad: u64 = (4 - used % 4) % 4;
    proof {
        lemma_round4(used as int);
        assert(used + pad == round4(used as int));
    }
    if pad > len - end {
        return false;
    }
    parcel.set_position(end + pad);
    true
}

impl<T: Parcelable> Parcelable for Vec<T> {
    type Model = Seq<T::Model>;

    open spec fn model(&self) -> Seq<T::Model> {
        models::<T>(self@)
    }

    open spec fn legal(model: Seq<T::Model>) -> bool {
        model.len() <= i32::MAX && forall|i: int|
            0 <= i < model.len() ==> T::legal(#[trigger] model[i])
    }

    open spec fn frame(model: Seq<T::Model>) -> Frame {
        Frame::plain(le32(bits_of_i32(model.len() as i32))).join(frames::<T>(model).padded())
    }

    open spec fn parse(p: ParcelView) -> Result<(Seq<T::Model>, nat), Error> {
        if !p.has(4) || i32_at(p) < 0 {
            Err(Error::DeserializationError)
        } else {
            match parse_items::<T>(p.skip(4), i32_at(p) as nat) {
                Ok((items, end)) => if p.position + 4 <= end && p.position + 4 + round4(
                    end - (p.position + 4),
                ) <= p.data.len() {
                    Ok((items, (p.position + 4 + round4(end - (p.position + 4))) as nat))
                } else {
                    Err(Error::DeserializationError)
                },
                Err(e) => Err(e),
            }
        }
    }

    proof fn lemma_round_trip(model: Seq<T::Model>, p: ParcelView) {
        let count = Frame::plain(le32(bits_of_i32(model.len() as i32)));
        let items = frames::<T>(model);
        lemma_le_round_trip(0, 0, 0, model.len() as i32);
        lemma_holds_join(p, count, items.padded());
        lemma_pad4(items.bytes);
        lemma_round4(items.bytes.len() as int);
        let q = p.skip(4);
        assert(q.peek(items.bytes.len() as int) =~= q.peek(
            items.padded().bytes.len() as int,
        ).subrange(0, items.bytes.len() as int));
        lemma_items_round_trip::<T>(model, q);
    }

    fn deserialize(parcel: &mut Parcel) -> (r: Result<Vec<T>, Error>) {
        let before: u64 = parcel.position();
        let count: i32 = match parcel.read_i32() {
            Ok(count) => count,
            Err(e) => {
                return Err(e);
            },
        };
        if count < 0 {
            parcel.set_position(before);
            return Err(Error::DeserializationError);
        }
        let start: u64 = parcel.position();
        let mut items: Vec<T> = Vec::new();
        let mut i: i32 = 0;
        proof {
            assert(models::<T>(items@) =~= Seq::empty());
        }
        while i < count
            invariant
                0 <= i <= count,
                old(parcel)@.has(4),
                count == i32_at(old(parcel)@),
                before == old(parcel)@.position,
                start == old(parcel)@.position + 4,
                parcel@ == old(parcel)@.at(parcel@.position),
                parse_items::<T>(old(parcel)@.skip(4), i as nat) == Ok::<
                    (Seq<T::Model>, nat),
                    Error,
                >((models::<T>(items@), parcel@.position)),
            decreases count - i,
        {
            let ghost done = models::<T>(items@);
            match T::deserialize(parcel) {
                Ok(item) => {
                    items.push(item);
                    proof {
                        assert(models::<T>(items@) =~= done.push(item.model()));
                    }
                },
                Err(e) => {
                    proof {
                        lemma_items_error::<T>(old(parcel)@.skip(4), (i + 1) as nat, count as nat);
                    }
                    parcel.set_position(before);
                    return Err(e);
                },
            }
            i += 1;
        }
        if skip_padding(parcel, start) {
            Ok(items)
        } else {
            parcel.set_position(before);
            Err(Error::DeserializationError)
        }
    }

    fn serialize(&self, parcel: &mut Parcel) -> (r: Result<(), Error>) {
        let ghost model = models::<T>(self@);
        let ghost count = Frame::plain(le32(bits_of_i32(model.len() as i32)));
        let ghost all = frames::<T>(model);
        let n: usize = self.len();
        let len: usize = parcel.len();
        let offsets: usize = parcel.offsets_len();
        let position: u64 = parcel.position();
        proof {
            lemma_put_frame_plain(old(parcel)@, count.bytes);
            lemma_pad4(all.bytes);
            lemma_round4(all.bytes.len() as int);
            assert(count.join(frames::<T>(model.take(0))) =~= count) by {
                assert(count.join(frames::<T>(model.take(0))).bytes =~= count.bytes);
                assert(count.join(frames::<T>(model.take(0))).objects =~= count.objects);
            }
        }
        match parcel.write_i32(#[verifier::truncate] (n as i32)) {
            Ok(()) => {},
            Err(e) => {
                return Err(e);
            },
        }
        let start: u64 = parcel.position();
        let mut i: usize = 0;
        while i < n
            invariant
                i <= n,
                n == self@.len(),
                len == old(parcel)@.data.len(),
                offsets == old(parcel)@.offsets.len(),
                position == old(parcel)@.position,
                start == old(parcel)@.data.len() + 4,
                model == models::<T>(self@),
                all == frames::<T>(model),
                count == Frame::plain(le32(bits_of_i32(model.len() as i32))),
                parcel@ == old(parcel)@.put_frame(count.join(frames::<T>(model.take(i as int)))),
                parcel@.data.len() <= usize::MAX,
            decreases n - i,
        {
            let ghost done = frames::<T>(model.take(i as int));
            let ghost next = T::frame(self@[i as int].model());
            proof {
                assert(model.take(i + 1).drop_last() =~= model.take(i as int));
                assert(model.take(i + 1).last() == self@[i as int].model());
                lemma_frames_grow::<T>(model, i + 1);
                lemma_round4(all.bytes.len() as int);
                lemma_put_frame_join(old(parcel)@, count.join(done), next);
                assert(count.join(done).join(next) =~= count.join(done.join(next))) by {
                    assert(count.join(done).join(next).bytes =~= count.join(done.join(next)).bytes);
                    assert(count.join(done).join(next).objects =~= count.join(
                        done.join(next),
                    ).objects);
                }
            }
            match self[i].serialize(parcel) {
                Ok(()) => {},
                Err(e) => {
                    proof {
                        lemma_take_back(old(parcel)@, count.join(done));
                    }
                    parcel.roll_back(len, offsets, position);
                    return Err(e);
                },
            }
            i += 1;
        }
        proof {
            assert(model.take(n as int) =~= model);
            let none = Frame::plain(zeros(0));
            assert(count.join(all.join(none)) =~= count.join(all)) by {
                assert(count.join(all.join(none)).bytes =~= count.join(all).bytes);
                assert(count.join(all.join(none)).objects =~= count.join(all).objects);
            }
        }
        let used: u64 = parcel.position() - start;
        let pad: u64 = (4 - used % 4) % 4;
        let mut k: u64 = 0;
        while k < pad
            invariant
                k <= pad,
                len == old(parcel)@.data.len(),
                offsets == old(parcel)@.offsets.len(),
                position == old(parcel)@.position,
                model == models::<T>(self@),
                all == frames::<T>(model),
                count == Frame::plain(le32(bits_of_i32(model.len() as i32))),
                all.bytes.len() + pad == round4(all.bytes.len() as int),
                parcel@ == old(parcel)@.put_frame(
                    count.join(all.join(Frame::plain(zeros(k as int)))),
                ),
            decreases pad - k,
        {
            let ghost so_far = count.join(all.join(Frame::plain(zeros(k as int))));
            proof {
                let one = Frame::plain(seq![0u8]);
                lemma_put_frame_plain(old(parcel)@.put_frame(so_far), seq![0u8]);
                lemma_put_frame_join(old(parcel)@, so_far, one);
                let more = count.join(all.join(Frame::plain(zeros(k + 1))));
                assert(so_far.join(one) =~= more) by {
                    assert(so_far.join(one).bytes =~= more.bytes);
                    assert(so_far.join(one).objects =~= more.objects);
                }
            }
            match parcel.write_u8(0) {
                Ok(()) => {},
                Err(e) => {
                    proof {
                        lemma_take_back(old(parcel)@, so_far);
                        assert(so_far.bytes.len() == 4 + all.bytes.len() + k);
                    }
                    parcel.roll_back(len, offsets, position);
                    return Err(e);
                },
            }
            k += 1;
        }
        let end: usize = parcel.len();
        proof {
            let padded = all.join(Frame::plain(zeros(pad as int)));
            assert(padded =~= all.padded()) by {
                assert(padded.bytes =~= all.padded().bytes);
                assert(padded.objects =~= all.padded().objects);
            }
            assert(count.join(all.padded()).bytes.len() == 4 + round4(all.bytes.len() as int));
            assert(end == old(parcel)@.data.len() + 4 + round4(all.bytes.len() as int));
        }
        Ok(())
    }
}

impl Parcelable for () {
    type Model = ();

    open spec fn model(&self) -> () {
        ()
    }

    open spec fn legal(model: ()) -> bool {
        true
    }

    open spec fn frame(model: ()) -> Frame {
        Frame::plain(Seq::empty())
    }

    open spec fn parse(p: ParcelView) -> Result<((), nat), Error> {
        Ok(((), p.position))
    }

    proof fn lemma_round_trip(model: (), p: ParcelView) {
    }

    fn deserialize(parcel: &mut Parcel) -> (r: Result<(), Error>) {
        Ok(())
    }

    fn serialize(&self, parcel: &mut Parcel) -> (r: Result<(), Error>) {
        proof {
            lemma_put_frame_plain(old(parcel)@, Seq::empty());
            assert(pad4(Seq::<u8>::empty()) =~= Seq::<u8>::empty());
        }
        let none: [u8; 0] = [];
        parcel.write(none.as_slice())
    }
}

impl<K: Parcelable, V: Parcelable> Parcelable for (K, V) {
    type Model = (K::Model, V::Model);

    open spec fn model(&self) -> (K::Model, V::Model) {
        (self.0.model(), self.1.model())
    }

    open spec fn legal(model: (K::Model, V::Model)) -> bool {
        K::legal(model.0) && V::legal(model.1)
    }

    open spec fn frame(model: (K::Model, V::Model)) -> Frame {
        K::frame(model.0).join(V::frame(model.1))
    }

    open spec fn parse(p: ParcelView) -> Result<((K::Model, V::Model), nat), Error> {
        match K::parse(p) {
            Ok((key, middle)) => match V::parse(p.at(middle)) {
                Ok((value, end)) => Ok(((key, value), end)),
                Err(e) => Err(e),
            },
            Err(e) => Err(e),
        }
    }

    proof fn lemma_round_trip(model: (K::Model, V::Model), p: ParcelView) {
        lemma_holds_join(p, K::frame(model.0), V::frame(model.1));
        K::lemma_round_trip(model.0, p);
        let middle = p.position + K::frame(model.0).bytes.len();
        assert(p.at(middle) == p.skip(K::frame(model.0).bytes.len() as int));
        V::lemma_round_trip(model.1, p.at(middle));
    }

    fn deserialize(parcel: &mut Parcel) -> (r: Result<(K, V), Error>) {
        let before: u64 = parcel.position();
        let key = match K::deserialize(parcel) {
            Ok(key) => key,
            Err(e) => {
                return Err(e);
            },
        };
        match V::deserialize(parcel) {
            Ok(value) => Ok((key, value)),
            Err(e) => {
                parcel.set_position(before);
                Err(e)
            },
        }
    }

    fn serialize(&self, parcel: &mut Parcel) -> (r: Result<(), Error>) {
        proof {
            lemma_put_frame_join(old(parcel)@, K::frame(self.0.model()), V::frame(self.1.model()));
            lemma_take_back(old(parcel)@, K::frame(self.0.model()));
        }
        let len: usize = parcel.len();
        let offsets: usize = parcel.offsets_len();
        let position: u64 = parcel.position();
        match self.0.serialize(parcel) {
            Ok(()) => {},
            Err(e) => {
                return Err(e);
            },
        }
        match self.1.serialize(parcel) {
            Ok(()) => Ok(()),
            Err(e) => {
                parcel.roll_back(len, offsets, position);
                Err(e)
            },
        }
    }
}

/// A mapping as it travels: its entries, key and value, in the order of the wire.
#[derive(Debug)]
pub struct Mapping<K, V> {
    pub entries: Vec<(K, V)>,
}

impl<K: Parcelable, V: Parcelable> Parcelable for Mapping<K, V> {
    type Model = Seq<(K::Model, V::Model)>;

    open spec fn model(&self) -> Seq<(K::Model, V::Model)> {
        models::<(K, V)>(self.entries@)
    }

    open spec fn legal(model: Seq<(K::Model, V::Model)>) -> bool {
        model.len() <= i32::MAX && forall|i: int|
            0 <= i < model.len() ==> <(K, V) as Parcelable>::legal(#[trigger] model[i])
    }

    open spec fn frame(model: Seq<(K::Model, V::Model)>) -> Frame {
        Frame::plain(le32(bits_of_i32(model.len() as i32))).join(frames::<(K, V)>(model))
    }

    open spec fn parse(p: ParcelView) -> Result<(Seq<(K::Model, V::Model)>, nat), Error> {
        if !p.has(4) {
            Err(Error::DeserializationError)
        } else if i32_at(p) < 0 {
            Ok((Seq::empty(), (p.position + 4) as nat))
        } else {
            parse_items::<(K, V)>(p.skip(4), i32_at(p) as nat)
        }
    }

    proof fn lemma_round_trip(model: Seq<(K::Model, V::Model)>, p: ParcelView) {
        let count = Frame::plain(le32(bits_of_i32(model.len() as i32)));
        lemma_le_round_trip(0, 0, 0, model.len() as i32);
        lemma_holds_join(p, count, frames::<(K, V)>(model));
        lemma_items_round_trip::<(K, V)>(model, p.skip(4));
    }

    fn deserialize(parcel: &mut Parcel) -> (r: Result<Mapping<K, V>, Error>) {
        let before: u64 = parcel.position();
        let count: i32 = match parcel.read_i32() {
            Ok(count) => count,
            Err(e) => {
                return Err(e);
            },
        };
        let mut entries: Vec<(K, V)> = Vec::new();
        let mut i: i32 = 0;
        proof {
            assert(models::<(K, V)>(entries@) =~= Seq::empty());
        }
        while i < count
            invariant
                0 <= i,
                count >= 0 ==> i <= count,
                old(parcel)@.has(4),
                count == i32_at(old(parcel)@),
                before == old(parcel)@.position,
                parcel@ == old(parcel)@.at(parcel@.position),
                count < 0 ==> parcel@.position == old(parcel)@.position + 4 && models::<(K, V)>(
                    entries@,
                ) == Seq::<(K::Model, V::Model)>::empty(),
                count >= 0 ==> parse_items::<(K, V)>(old(parcel)@.skip(4), i as nat) == Ok::<
                    (Seq<(K::Model, V::Model)>, nat),
                    Error,
                >((models::<(K, V)>(entries@), parcel@.position)),
            decreases count - i,
        {
            let ghost done = models::<(K, V)>(entries@);
            match <(K, V)>::deserialize(parcel) {
                Ok(entry) => {
                    entries.push(entry);
                    proof {
                        assert(models::<(K, V)>(entries@) =~= done.push(entry.model()));
                    }
                },
                Err(e) => {
                    proof {
                        lemma_items_error::<(K, V)>(
                            old(parcel)@.skip(4),
                            (i + 1) as nat,
                            count as nat,
                        );
                    }
                    parcel.set_position(before);
                    return Err(e);
                },
            }
            i += 1;
        }
        Ok(Mapping { entries })
    }

    fn serialize(&self, parcel: &mut Parcel) -> (r: Result<(), Error>) {
        let ghost model = models::<(K, V)>(self.entries@);
        let ghost count = Frame::plain(le32(bits_of_i32(model.len() as i32)));
        let n: usize = self.entries.len();
        let len: usize = parcel.len();
        let offsets: usize = parcel.offsets_len();
        let position: u64 = parcel.position();
        proof {
            lemma_put_frame_plain(old(parcel)@, count.bytes);
            assert(count.join(frames::<(K, V)>(model.take(0))) =~= count) by {
                assert(count.join(frames::<(K, V)>(model.take(0))).bytes =~= count.bytes);
                assert(count.join(frames::<(K, V)>(model.take(0))).objects =~= count.objects);
            }
        }
        match parcel.write_i32(#[verifier::truncate] (n as i32)) {
            Ok(()) => {},
            Err(e) => {
                return Err(e);
            },
        }
        let mut i: usize = 0;
        while i < n
            invariant
                i <= n,
                n == self.entries@.len(),
                len == old(parcel)@.data.len(),
                offsets == old(parcel)@.offsets.len(),
                position == old(parcel)@.position,
                model == models::<(K, V)>(self.entries@),
                count == Frame::plain(le32(bits_of_i32(model.len() as i32))),
                parcel@ == old(parcel)@.put_frame(
                    count.join(frames::<(K, V)>(model.take(i as int))),
                ),
            decreases n - i,
        {
            let ghost done = frames::<(K, V)>(model.take(i as int));
            proof {
                let next = <(K, V) as Parcelable>::frame(self.entries@[i as int].model());
                assert(model.take(i + 1).drop_last() =~= model.take(i as int));
                assert(model.take(i + 1).last() == self.entries@[i as int].model());
                lemma_frames_grow::<(K, V)>(model, i + 1);
                lemma_put_frame_join(old(parcel)@, count.join(done), next);
                assert(count.join(done).join(next) =~= count.join(done.join(next))) by {
                    assert(count.join(done).join(next).bytes =~= count.join(done.join(next)).bytes);
                    assert(count.join(done).join(next).objects =~= count.join(
                        done.join(next),
                    ).objects);
                }
            }
            match self.entries[i].serialize(parcel) {
                Ok(()) => {},
                Err(e) => {
                    proof {
                        lemma_take_back(old(parcel)@, count.join(done));
                    }
                    parcel.roll_back(len, offsets, position);
                    return Err(e);
                },
            }
            i += 1;
        }
        let end: usize = parcel.len();
        proof {
            assert(model.take(n as int) =~= model);
            assert(end == old(parcel)@.data.len() + 4 + frames::<(K, V)>(model).bytes.len());
        }
        Ok(())
    }
}

/// Something that is written to a parcel through a reference: a value
/// behind a reference, a tag, or a pair of such things.
pub trait Sends {
    /// What a write of this contributes to a parcel.
    spec fn sent(&self) -> Frame;

    /// Write this to the parcel: all of it, or nothing where there is no
    /// room for all of it.
    fn send(&self, parcel: &mut Parcel) -> (r: Result<(), Error>)
        ensures
            sent(old(parcel)@, final(parcel)@, r, self.sent()),
    ;
}

impl<'a, T: Parcelable> Sends for &'a T {
    open spec fn sent(&self) -> Frame {
        T::frame((**self).model())
    }

    fn send(&self, parcel: &mut Parcel) -> (r: Result<(), Error>) {
        (**self).serialize(parcel)
    }
}

impl<A: Sends, B: Sends> Sends for (A, B) {
    open spec fn sent(&self) -> Frame {
        self.0.sent().join(self.1.sent())
    }

    fn send(&self, parcel: &mut Parcel) -> (r: Result<(), Error>) {
        proof {
            lemma_put_frame_join(old(parcel)@, self.0.sent(), self.1.sent());
            lemma_take_back(old(parcel)@, self.0.sent());
        }
        let len: usize = parcel.len();
        let offsets: usize = parcel.offsets_len();
        let position: u64 = parcel.position();
        match self.0.send(parcel) {
            Ok(()) => {},
            Err(e) => {
                return Err(e);
            },
        }
        match self.1.send(parcel) {
            Ok(()) => Ok(()),
            Err(e) => {
                parcel.roll_back(len, offsets, position);
                Err(e)
            },
        }
    }
}

/// The tag of a variant of a tagged union, which is written in front of its fields.
#[derive(Debug, Clone, Copy, PartialEq, Eq, Structural)]
pub struct Tag(pub i32);

impl Sends for Tag {
    open spec fn sent(&self) -> Frame {
        Frame::plain(le32(bits_of_i32(self.0)))
    }

    fn send(&self, parcel: &mut Parcel) -> (r: Result<(), Error>) {
        proof {
            lemma_put_frame_plain(old(parcel)@, le32(bits_of_i32(self.0)));
        }
        parcel.write_i32(self.0)
    }
}

} // verus!
