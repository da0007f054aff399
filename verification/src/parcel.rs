//! The parcel: a byte buffer with a cursor, and a table of the positions at
//! which flat objects start. Writes append to the buffer and leave the
//! cursor at its end; reads take what follows the cursor; a caller who
//! wants to read what was written moves the cursor back first.

use crate::error::Error;
use crate::wire::{
    bits_of_i32, decode_i32, decode_u16, decode_u32, decode_u64, encode_i32, encode_u16,
    encode_u32, encode_u64, from_le16, from_le32, from_le64, i32_of_bits, le16, le32, le64,
    lemma_le_round_trip,
};
use crate::utf16::{decode_utf16, encode_utf16, lemma_utf16_round_trip, utf16, utf16_decode};
use vstd::prelude::*;
use vstd::slice::slice_subrange;
use vstd::utf8::{decode_utf8, encode_utf8, valid_utf8};

verus! {

/// `n` zero bytes.
pub open spec fn zeros(n: int) -> Seq<u8> {
    Seq::new(n as nat, |i: int| 0u8)
}

/// `n` rounded up to the next multiple of four.
pub open spec fn round4(n: int) -> int {
    (n + 3) / 4 * 4
}

/// `bytes` followed by as few zero bytes as bring its length to a multiple of four.
pub open spec fn pad4(bytes: Seq<u8>) -> Seq<u8> {
    bytes + zeros(round4(bytes.len() as int) - bytes.len())
}

/// What a parcel holds: its bytes, where its cursor stands, and its offsets table.
pub struct ParcelView {
    pub data: Seq<u8>,
    pub position: nat,
    pub offsets: Seq<usize>,
}

impl ParcelView {
    /// A parcel with no bytes and no offsets.
    pub open spec fn empty() -> ParcelView {
        ParcelView { data: Seq::empty(), position: 0, offsets: Seq::empty() }
    }

    /// The cursor stands at the end of the bytes.
    pub open spec fn at_end(self) -> bool {
        self.position == self.data.len()
    }

    /// At least `n` bytes lie between the cursor and the end.
    pub open spec fn has(self, n: int) -> bool {
        n >= 0 && self.position + n <= self.data.len()
    }

    /// The `n` bytes that follow the cursor.
    pub open spec fn peek(self, n: int) -> Seq<u8> {
        self.data.subrange(self.position as int, self.position + n)
    }

    /// The same parcel with the cursor moved to `position`.
    pub open spec fn at(self, position: nat) -> ParcelView {
        ParcelView { position, ..self }
    }

    /// The same parcel with the cursor moved forward by `n`.
    pub open spec fn skip(self, n: int) -> ParcelView {
        ParcelView { position: (self.position + n) as nat, ..self }
    }

    /// The parcel after `bytes` were written: writes append, wherever the
    /// cursor stood, and leave the cursor at the new end.
    pub open spec fn put(self, bytes: Seq<u8>) -> ParcelView {
        ParcelView {
            data: self.data + bytes,
            position: self.data.len() + bytes.len(),
            offsets: self.offsets,
        }
    }

    /// The parcel after the place of the next write, the end of the bytes,
    /// was recorded in the offsets table.
    pub open spec fn mark(self) -> ParcelView {
        ParcelView { offsets: self.offsets.push(self.data.len() as usize), ..self }
    }

    /// A write of `n` more bytes stays within what a buffer can hold.
    pub open spec fn fits(self, n: int) -> bool {
        self.data.len() + n <= usize::MAX
    }

    /// Every recorded offset lies inside the bytes.
    pub open spec fn offsets_in_bounds(self) -> bool {
        forall|i: int| 0 <= i < self.offsets.len() ==> (#[trigger] self.offsets[i]) < self.data.len()
    }
}

/// Two writes in a row are one write of the two byte strings joined.
pub proof fn lemma_put_put(p: ParcelView, a: Seq<u8>, b: Seq<u8>)
    ensures
        p.put(a).put(b) == p.put(a + b),
{
    assert(p.put(a).put(b).data =~= p.put(a + b).data);
}

/// What was written is what is read from the place where the write began.
pub proof fn lemma_put_peek(p: ParcelView, bytes: Seq<u8>)
    ensures
        p.put(bytes).at(p.data.len()).has(bytes.len() as int),
        p.put(bytes).at(p.data.len()).peek(bytes.len() as int) == bytes,
{
    assert(p.put(bytes).at(p.data.len()).peek(bytes.len() as int) =~= bytes);
}

/// `offsets`, each moved up by `by`.
pub open spec fn shifted(offsets: Seq<usize>, by: int) -> Seq<usize> {
    Seq::new(offsets.len(), |i: int| (offsets[i] + by) as usize)
}

/// Parcel `p` after parcel `q` was appended: the bytes of `p` followed by
/// those of `q`, and the offsets of `p` followed by those of `q`, each
/// moved up by the length of `p`.
pub open spec fn appended(p: ParcelView, q: ParcelView) -> ParcelView {
    ParcelView {
        data: p.data + q.data,
        position: p.data.len() + q.data.len(),
        offsets: p.offsets + shifted(q.offsets, p.data.len() as int),
    }
}

/// Rounding up to a multiple of four adds less than four.
pub proof fn lemma_round4(n: int)
    requires
        n >= 0,
    ensures
        n <= round4(n) < n + 4,
        round4(n) % 4 == 0,
        n % 4 == 0 ==> round4(n) == n,
{
}

/// Padded bytes begin with the bytes, go on with zeros, and have a length
/// that is the next multiple of four.
pub proof fn lemma_pad4(bytes: Seq<u8>)
    ensures
        pad4(bytes).len() == round4(bytes.len() as int),
        pad4(bytes).len() % 4 == 0,
        pad4(bytes).subrange(0, bytes.len() as int) == bytes,
{
    lemma_round4(bytes.len() as int);
    assert(pad4(bytes).subrange(0, bytes.len() as int) =~= bytes);
}

/// How a write of `bytes` relates the parcel before and after to the
/// result: with room for the bytes they are appended; without, the write
/// fails with an i/o error and the parcel is as before.
pub open spec fn wrote(pre: ParcelView, post: ParcelView, r: Result<(), Error>, bytes: Seq<u8>) -> bool {
    if pre.fits(bytes.len() as int) {
        r is Ok && post == pre.put(bytes)
    } else {
        r == Err::<(), Error>(Error::StdioError) && post == pre
    }
}

/// Parcel `q` can be appended to parcel `p`: the bytes of both fit a
/// buffer, and so does every offset of `q` once it is moved up.
pub open spec fn can_append(p: ParcelView, q: ParcelView) -> bool {
    &&& p.fits(q.data.len() as int)
    &&& forall|i: int| 0 <= i < q.offsets.len() ==> p.data.len() + (#[trigger] q.offsets[i]) <= usize::MAX
}

/// How a read of a fixed-width value relates the parcel before and after to
/// the result: with `n` bytes left the cursor moves past them and the result
/// is `value`; with fewer the read fails and the parcel is as before.
pub open spec fn read_as<T>(
    pre: ParcelView,
    post: ParcelView,
    r: Result<T, Error>,
    n: int,
    value: T,
) -> bool {
    if pre.has(n) {
        r == Ok::<T, Error>(value) && post == pre.skip(n)
    } else {
        r == Err::<T, Error>(Error::DeserializationError) && post == pre
    }
}

/// How a read of `n` raw bytes relates the parcel before and after to the
/// result: with `n` bytes left the cursor moves past them and the result
/// holds them; with fewer the read fails and the parcel is as before.
pub open spec fn read_bytes(
    pre: ParcelView,
    post: ParcelView,
    r: Result<Vec<u8>, Error>,
    n: int,
) -> bool {
    if pre.has(n) {
        r is Ok && r->Ok_0@ == pre.peek(n) && post == pre.skip(n)
    } else {
        r == Err::<Vec<u8>, Error>(Error::DeserializationError) && post == pre
    }
}

/// The bytes of a run of 16-bit code units, each little-endian.
pub open spec fn units_le(units: Seq<u16>) -> Seq<u8> {
    Seq::new(
        2 * units.len(),
        |i: int|
            if i % 2 == 0 {
                (units[i / 2] % 256) as u8
            } else {
                (units[i / 2] / 256) as u8
            },
    )
}

/// The 16-bit code units that `bytes` hold, each little-endian; an odd last
/// byte is left out.
pub open spec fn units_of_le(bytes: Seq<u8>) -> Seq<u16> {
    Seq::new(bytes.len() / 2, |i: int| (bytes[2 * i] + 256 * bytes[2 * i + 1]) as u16)
}

/// The wire form of a UTF-16 string: the number of code units as an i32,
/// the code units, a zero code unit, and zero bytes up to a multiple of four.
pub open spec fn str16_wire(text: Seq<char>) -> Seq<u8> {
    le32(bits_of_i32(utf16(text).len() as i32)) + pad4(units_le(utf16(text).push(0u16)))
}

/// The wire form of a UTF-8 string: the number of bytes as an i32, the
/// bytes, a zero byte, and zero bytes up to a multiple of four.
pub open spec fn str_wire(text: Seq<char>) -> Seq<u8> {
    le32(bits_of_i32(encode_utf8(text).len() as i32)) + pad4(encode_utf8(text).push(0u8))
}

/// The i32 that stands at the cursor.
pub open spec fn i32_at(p: ParcelView) -> i32 {
    i32_of_bits(from_le32(p.peek(4)))
}

/// What reading a UTF-16 string at the cursor gives: the string and the
/// position after it, or the error. A count of -1 stands for the empty
/// string with nothing after the count; the zero code unit and the padding
/// are stepped over without being looked at.
pub open spec fn parse_str16(p: ParcelView) -> Result<(Seq<char>, nat), Error> {
    if !p.has(4) {
        Err(Error::DeserializationError)
    } else if i32_at(p) == -1 {
        Ok((Seq::empty(), p.position + 4))
    } else if i32_at(p) < -1 {
        Err(Error::DeserializationError)
    } else if !p.skip(4).has(round4(2 * (i32_at(p) + 1))) {
        Err(Error::DeserializationError)
    } else {
        match utf16_decode(units_of_le(p.skip(4).peek(2 * i32_at(p)))) {
            Some(text) => Ok((text, (p.position + 4 + round4(2 * (i32_at(p) + 1))) as nat)),
            None => Err(Error::Utf16Error),
        }
    }
}

/// What reading a UTF-8 string at the cursor gives: the string and the
/// position after it, or the error. A count of -1 stands for the empty
/// string with nothing after the count; the zero byte and the padding are
/// stepped over without being looked at.
pub open spec fn parse_str(p: ParcelView) -> Result<(Seq<char>, nat), Error> {
    if !p.has(4) {
        Err(Error::DeserializationError)
    } else if i32_at(p) == -1 {
        Ok((Seq::empty(), p.position + 4))
    } else if i32_at(p) < -1 {
        Err(Error::DeserializationError)
    } else if !p.skip(4).has(round4(i32_at(p) + 1)) {
        Err(Error::DeserializationError)
    } else if valid_utf8(p.skip(4).peek(i32_at(p) as int)) {
        Ok(
            (
                decode_utf8(p.skip(4).peek(i32_at(p) as int)),
                (p.position + 4 + round4(i32_at(p) + 1)) as nat,
            ),
        )
    } else {
        Err(Error::Utf8Error)
    }
}

/// The strict-mode policy word that opens an interface token: bit 31 and `0x42000004`.
pub const STRICT_MODE_POLICY: i32 = -1040187388;

/// The work-source uid that stands for "unset".
pub const UNSET_WORK_SOURCE: i32 = -1;

/// The marker of an interface token, the characters "SYST".
pub const HEADER: i32 = 0x53595354;

/// The wire form of an interface token: policy word, work-source uid,
/// marker, and the interface name as a UTF-16 string.
pub open spec fn token_wire(name: Seq<char>) -> Seq<u8> {
    le32(bits_of_i32(STRICT_MODE_POLICY)) + le32(bits_of_i32(UNSET_WORK_SOURCE)) + le32(
        bits_of_i32(HEADER),
    ) + str16_wire(name)
}

/// What reading an interface token at the cursor gives: the interface name
/// and the position after it, or the error. The policy word may be
/// anything; the uid and the marker must be the expected ones.
pub open spec fn parse_token(p: ParcelView) -> Result<(Seq<char>, nat), Error> {
    if !p.has(12) {
        Err(Error::DeserializationError)
    } else if i32_at(p.skip(4)) != UNSET_WORK_SOURCE || i32_at(p.skip(8)) != HEADER {
        Err(Error::DeserializationError)
    } else {
        parse_str16(p.skip(12))
    }
}

/// How a read of a string relates the parcel before and after to the
/// result: on success the cursor stands after the string and the result
/// holds its characters; on failure the parcel is as before.
pub open spec fn read_text(
    pre: ParcelView,
    post: ParcelView,
    r: Result<String, Error>,
    expected: Result<(Seq<char>, nat), Error>,
) -> bool {
    match expected {
        Ok((text, end)) => r is Ok && r->Ok_0@ == text && post == pre.at(end),
        Err(e) => r == Err::<String, Error>(e) && post == pre,
    }
}

/// Decoding the bytes of a run of code units gives the code units back.
pub proof fn lemma_units_round_trip(units: Seq<u16>)
    ensures
        units_le(units).len() == 2 * units.len(),
        units_of_le(units_le(units)) == units,
{
    assert(units_of_le(units_le(units)) =~= units);
}

/// The bytes of code units followed by a zero begin with the bytes of the code units.
pub proof fn lemma_units_le_push(units: Seq<u16>)
    ensures
        units_le(units.push(0u16)).len() == 2 * units.len() + 2,
        units_le(units.push(0u16)).subrange(0, 2 * units.len() as int) == units_le(units),
{
    let longer = units_le(units.push(0u16));
    assert forall|i: int| 0 <= i < 2 * units.len() implies longer[i] == units_le(units)[i] by {
        assert(0 <= i / 2 < units.len());
        assert(units.push(0u16)[i / 2] == units[i / 2]);
    }
    assert(longer.subrange(0, 2 * units.len() as int) =~= units_le(units));
}

/// The wire form of a string is a count of four bytes and a padded body
/// that begins with the string's own bytes.
pub proof fn lemma_wire_parts(count: Seq<u8>, body: Seq<u8>, n: int)
    requires
        count.len() == 4,
        0 <= n <= body.len(),
    ensures
        (count + pad4(body)).len() == 4 + round4(body.len() as int),
        (count + pad4(body)).subrange(0, 4) == count,
        (count + pad4(body)).subrange(4, 4 + n) == body.subrange(0, n),
{
    lemma_pad4(body);
    let wire = count + pad4(body);
    assert(wire.subrange(0, 4) =~= count);
    assert(wire.subrange(4, 4 + n) =~= body.subrange(0, n));
}

/// What a parcel holds at its cursor, it holds piece by piece.
pub proof fn lemma_peek_parts(p: ParcelView, wire: Seq<u8>, from: int, to: int)
    requires
        p.has(wire.len() as int),
        p.peek(wire.len() as int) == wire,
        0 <= from <= to <= wire.len(),
    ensures
        p.skip(from).has(to - from),
        p.skip(from).peek(to - from) == wire.subrange(from, to),
{
    assert(p.skip(from).peek(to - from) =~= p.peek(wire.len() as int).subrange(from, to));
}

/// The parts of the wire form of a UTF-16 string.
pub proof fn lemma_str16_wire(text: Seq<char>)
    ensures
        str16_wire(text).len() == 4 + round4(2 * (utf16(text).len() as int + 1)),
        str16_wire(text).len() % 4 == 0,
        str16_wire(text).subrange(0, 4) == le32(bits_of_i32(utf16(text).len() as i32)),
        str16_wire(text).subrange(4, 4 + 2 * utf16(text).len() as int) == units_le(utf16(text)),
{
    let units = utf16(text);
    let count = le32(bits_of_i32(units.len() as i32));
    let body = units_le(units.push(0u16));
    lemma_units_le_push(units);
    lemma_wire_parts(count, body, 2 * units.len() as int);
    lemma_round4(body.len() as int);
}

/// The parts of the wire form of a UTF-8 string.
pub proof fn lemma_str_wire(text: Seq<char>)
    ensures
        str_wire(text).len() == 4 + round4(encode_utf8(text).len() as int + 1),
        str_wire(text).len() % 4 == 0,
        str_wire(text).subrange(0, 4) == le32(bits_of_i32(encode_utf8(text).len() as i32)),
        str_wire(text).subrange(4, 4 + encode_utf8(text).len() as int) == encode_utf8(text),
{
    let bytes = encode_utf8(text);
    let count = le32(bits_of_i32(bytes.len() as i32));
    let body = bytes.push(0u8);
    lemma_wire_parts(count, body, bytes.len() as int);
    lemma_round4(body.len() as int);
    assert(body.subrange(0, bytes.len() as int) =~= bytes);
}

/// A parcel that holds the wire form of a UTF-16 string of less than 2^31
/// code units at its cursor reads as that string, up to the end of the
/// wire form.
#[verifier::spinoff_prover]
pub proof fn lemma_str16_round_trip(p: ParcelView, text: Seq<char>)
    requires
        utf16(text).len() <= i32::MAX,
        p.has(str16_wire(text).len() as int),
        p.peek(str16_wire(text).len() as int) == str16_wire(text),
    ensures
        parse_str16(p) == Ok::<(Seq<char>, nat), Error>(
            (text, p.position + str16_wire(text).len()),
        ),
{
    let units = utf16(text);
    let n = units.len() as int;
    let wire = str16_wire(text);
    lemma_str16_wire(text);
    lemma_le_round_trip(0, 0, 0, n as i32);
    lemma_units_round_trip(units);
    lemma_utf16_round_trip(text);
    lemma_round4(2 * (n + 1));
    lemma_peek_parts(p, wire, 0, 4);
    lemma_peek_parts(p, wire, 4, 4 + 2 * n);
    lemma_peek_parts(p, wire, 4, wire.len() as int);
    assert(p.skip(0) == p);
    assert(i32_at(p) == n);
    assert(p.skip(4).has(round4(2 * (i32_at(p) + 1))));
    assert(units_of_le(p.skip(4).peek(2 * i32_at(p))) == units);
}

/// A parcel that holds the wire form of a UTF-8 string of less than 2^31
/// bytes at its cursor reads as that string, up to the end of the wire form.
#[verifier::spinoff_prover]
pub proof fn lemma_str_round_trip(p: ParcelView, text: Seq<char>)
    requires
        encode_utf8(text).len() <= i32::MAX,
        p.has(str_wire(text).len() as int),
        p.peek(str_wire(text).len() as int) == str_wire(text),
    ensures
        parse_str(p) == Ok::<(Seq<char>, nat), Error>((text, p.position + str_wire(text).len())),
{
    let bytes = encode_utf8(text);
    let n = bytes.len() as int;
    let wire = str_wire(text);
    lemma_str_wire(text);
    lemma_le_round_trip(0, 0, 0, n as i32);
    lemma_round4(n + 1);
    lemma_peek_parts(p, wire, 0, 4);
    lemma_peek_parts(p, wire, 4, 4 + n);
    lemma_peek_parts(p, wire, 4, wire.len() as int);
    assert(p.skip(0) == p);
    assert(i32_at(p) == n);
    assert(p.skip(4).has(round4(i32_at(p) + 1)));
    assert(p.skip(4).peek(i32_at(p) as int) == bytes);
    vstd::utf8::encode_utf8_valid_utf8(text);
    vstd::utf8::encode_utf8_decode_utf8(text);
}

/// Reading an interface token that was written with a name gives the name
/// back: a parcel that holds the wire form of the token of a name of less
/// than 2^31 code units at its cursor reads as that name, up to the end of
/// the token.
pub proof fn lemma_token_round_trip(p: ParcelView, name: Seq<char>)
    requires
        utf16(name).len() <= i32::MAX,
        p.has(token_wire(name).len() as int),
        p.peek(token_wire(name).len() as int) == token_wire(name),
    ensures
        parse_token(p) == Ok::<(Seq<char>, nat), Error>((name, p.position + token_wire(name).len())),
{
    let wire = token_wire(name);
    let tail = str16_wire(name);
    lemma_le_round_trip(0, 0, 0, UNSET_WORK_SOURCE);
    lemma_le_round_trip(0, 0, 0, HEADER);
    assert(wire.len() == 12 + tail.len());
    assert(p.skip(4).peek(4) =~= wire.subrange(4, 8));
    assert(wire.subrange(4, 8) =~= le32(bits_of_i32(UNSET_WORK_SOURCE)));
    assert(p.skip(8).peek(4) =~= wire.subrange(8, 12));
    assert(wire.subrange(8, 12) =~= le32(bits_of_i32(HEADER)));
    assert(p.skip(12).peek(tail.len() as int) =~= wire.subrange(12, wire.len() as int));
    assert(wire.subrange(12, wire.len() as int) =~= tail);
    lemma_str16_round_trip(p.skip(12), name);
}

/// Reading an interface token fails where the work-source uid is not the
/// "unset" one or the marker is not "SYST".
pub proof fn lemma_token_mismatch(p: ParcelView)
    requires
        p.has(12),
        i32_at(p.skip(4)) != UNSET_WORK_SOURCE || i32_at(p.skip(8)) != HEADER,
    ensures
        parse_token(p) == Err::<(Seq<char>, nat), Error>(Error::DeserializationError),
{
}

/// Offsets that lie inside the bytes still do after a write, after the
/// write of a flat object that is not empty, and after another parcel
/// whose offsets lie inside its bytes was appended.
pub proof fn lemma_offsets_stay_in_bounds(p: ParcelView, bytes: Seq<u8>, q: ParcelView)
    requires
        p.offsets_in_bounds(),
        p.fits(bytes.len() as int),
    ensures
        p.put(bytes).offsets_in_bounds(),
        bytes.len() > 0 ==> p.mark().put(bytes).offsets_in_bounds(),
        q.offsets_in_bounds() && p.fits(q.data.len() as int) ==> appended(p, q).offsets_in_bounds(),
{
    assert forall|i: int| 0 <= i < p.put(bytes).offsets.len() implies (
    #[trigger] p.put(bytes).offsets[i]) < p.put(bytes).data.len() by {
        assert(p.offsets[i] < p.data.len());
    }
    if bytes.len() > 0 {
        let after = p.mark().put(bytes);
        assert forall|i: int| 0 <= i < after.offsets.len() implies (#[trigger] after.offsets[i])
            < after.data.len() by {
            if i < p.offsets.len() {
                assert(p.offsets[i] < p.data.len());
            }
        }
    }
    if q.offsets_in_bounds() && p.fits(q.data.len() as int) {
        let after = appended(p, q);
        assert forall|i: int| 0 <= i < after.offsets.len() implies (#[trigger] after.offsets[i])
            < after.data.len() by {
            if i < p.offsets.len() {
                assert(p.offsets[i] < p.data.len());
            } else {
                assert(q.offsets[i - p.offsets.len()] < q.data.len());
            }
        }
    }
}

/// A byte buffer with a read/write cursor and a table of flat-object offsets.
#[derive(Debug)]
pub struct Parcel {
    data: Vec<u8>,
    position: u64,
    object_offsets: Vec<usize>,
}

impl View for Parcel {
    type V = ParcelView;

    closed spec fn view(&self) -> ParcelView {
        ParcelView {
            data: self.data@,
            position: self.position as nat,
            offsets: self.object_offsets@,
        }
    }
}

impl Parcel {
    /// Create a new empty parcel.
    pub fn empty() -> (p: Parcel)
        ensures
            p@ == ParcelView::empty(),
    {
        Parcel { data: Vec::new(), position: 0, object_offsets: Vec::new() }
    }

    /// Create a parcel over a copy of `data`, with the cursor at its start.
    pub fn from_slice(data: &[u8]) -> (p: Parcel)
        ensures
            p@ == (ParcelView { data: data@, position: 0, offsets: Seq::empty() }),
    {
        Parcel { data: copy_of(data), position: 0, object_offsets: Vec::new() }
    }

    /// Create a parcel over copies of `data` and of the offsets table
    /// `offsets`, with the cursor at the start.
    pub fn from_data_and_offsets(data: &[u8], offsets: &[usize]) -> (p: Parcel)
        ensures
            p@ == (ParcelView { data: data@, position: 0, offsets: offsets@ }),
    {
        let mut table: Vec<usize> = Vec::new();
        let mut i: usize = 0;
        while i < offsets.len()
            invariant
                i <= offsets.len(),
                table@ == offsets@.take(i as int),
            decreases offsets.len() - i,
        {
            table.push(offsets[i]);
            i += 1;
        }
        assert(offsets@.take(offsets@.len() as int) =~= offsets@);
        Parcel { data: copy_of(data), position: 0, object_offsets: table }
    }

    /// Return to the empty parcel.
    pub fn reset(&mut self)
        ensures
            final(self)@ == ParcelView::empty(),
    {
        self.position = 0;
        self.data.clear();
        self.object_offsets.clear();
    }

    /// Where the cursor stands.
    pub fn position(&self) -> (pos: u64)
        ensures
            pos == self@.position,
    {
        self.position
    }

    /// Move the cursor; the bytes and the offsets stay.
    pub fn set_position(&mut self, pos: u64)
        ensures
            final(self)@ == old(self)@.at(pos as nat),
    {
        self.position = pos;
    }

    /// The bytes of the parcel.
    pub fn to_slice(&self) -> (bytes: &[u8])
        ensures
            bytes@ == self@.data,
    {
        self.data.as_slice()
    }

    /// The number of bytes in the parcel.
    pub fn len(&self) -> (n: usize)
        ensures
            n == self@.data.len(),
    {
        self.data.len()
    }

    /// Whether the parcel holds no bytes.
    pub fn is_empty(&self) -> (b: bool)
        ensures
            b == (self@.data.len() == 0),
    {
        self.data.len() == 0
    }

    /// The number of recorded object offsets.
    pub fn offsets_len(&self) -> (n: usize)
        ensures
            n == self@.offsets.len(),
    {
        self.object_offsets.len()
    }

    /// Record the place of the next write, the end of the bytes, as the
    /// start of a flat object.
    pub fn push_object(&mut self) -> (r: Result<(), Error>)
        ensures
            r is Ok,
            final(self)@ == old(self)@.mark(),
            old(self)@.at_end() ==> final(self)@.offsets.last() == old(self)@.position,
    {
        self.object_offsets.push(self.data.len());
        Ok(())
    }

    /// Whether the cursor stands anywhere but at the end of the bytes.
    pub fn has_unread_data(&self) -> (b: bool)
        ensures
            b == !self@.at_end(),
    {
        self.position != self.data.len() as u64
    }

    /// The offsets table, open to direct edits; bytes and cursor are not touched.
    pub fn offsets(&mut self) -> (table: &mut Vec<usize>)
        ensures
            table@ == old(self)@.offsets,
            final(self)@ == (ParcelView { offsets: final(table)@, ..old(self)@ }),
    {
        &mut self.object_offsets
    }

    /// Append the contents of another parcel to this parcel: its bytes
    /// follow the bytes of this one, and its offsets follow the offsets of
    /// this one, each moved up by the length that this parcel had. Where
    /// the bytes or a moved offset do not fit a buffer, the call fails with
    /// an i/o error and changes nothing.
    pub fn append_parcel(&mut self, other: &mut Parcel) -> (r: Result<(), Error>)
        ensures
            *final(other) == *old(other),
            can_append(old(self)@, old(other)@) ==> r is Ok && final(self)@ == appended(
                old(self)@,
                old(other)@,
            ),
            !can_append(old(self)@, old(other)@) ==> r == Err::<(), Error>(Error::StdioError)
                && final(self)@ == old(self)@,
    {
        let base: usize = self.data.len();
        if other.data.len() > usize::MAX - base {
            return Err(Error::StdioError);
        }
        let mut k: usize = 0;
        while k < other.object_offsets.len()
            invariant
                k <= other.object_offsets.len(),
                *other == *old(other),
                *self == *old(self),
                base == self@.data.len(),
                forall|j: int| 0 <= j < k ==> base + (#[trigger] other@.offsets[j]) <= usize::MAX,
            decreases other.object_offsets.len() - k,
        {
            if other.object_offsets[k] > usize::MAX - base {
                assert(base + old(other)@.offsets[k as int] > usize::MAX);
                return Err(Error::StdioError);
            }
            k += 1;
        }
        self.put(other.data.as_slice());
        let mut i: usize = 0;
        while i < other.object_offsets.len()
            invariant
                i <= other.object_offsets.len(),
                *other == *old(other),
                self@.data == appended(old(self)@, old(other)@).data,
                self@.position == appended(old(self)@, old(other)@).position,
                base == old(self)@.data.len(),
                forall|j: int|
                    0 <= j < other@.offsets.len() ==> base + (#[trigger] other@.offsets[j])
                        <= usize::MAX,
                self@.offsets == old(self)@.offsets + shifted(
                    other@.offsets.take(i as int),
                    base as int,
                ),
            decreases other.object_offsets.len() - i,
        {
            let offset: usize = other.object_offsets[i];
            self.object_offsets.push(offset + base);
            proof {
                assert(other@.offsets.take(i + 1) =~= other@.offsets.take(i as int).push(
                    other@.offsets[i as int],
                ));
                assert(shifted(other@.offsets.take(i + 1), base as int) =~= shifted(
                    other@.offsets.take(i as int),
                    base as int,
                ).push((offset + base) as usize));
            }
            i += 1;
        }
        proof {
            assert(other@.offsets.take(other@.offsets.len() as int) =~= other@.offsets);
        }
        Ok(())
    }

    /// Take back what was written since the parcel had `len` bytes and
    /// `offsets_len` offsets, and put the cursor at `position`. A length
    /// beyond what the parcel holds takes nothing back.
    pub fn roll_back(&mut self, len: usize, offsets_len: usize, position: u64)
        ensures
            final(self)@ == (ParcelView {
                data: if len <= old(self)@.data.len() {
                    old(self)@.data.take(len as int)
                } else {
                    old(self)@.data
                },
                position: position as nat,
                offsets: if offsets_len <= old(self)@.offsets.len() {
                    old(self)@.offsets.take(offsets_len as int)
                } else {
                    old(self)@.offsets
                },
            }),
    {
        self.data.truncate(len);
        self.object_offsets.truncate(offsets_len);
        self.position = position;
        proof {
            if len <= old(self)@.data.len() {
                assert(self.data@ =~= old(self)@.data.take(len as int));
            }
            if offsets_len <= old(self)@.offsets.len() {
                assert(self.object_offsets@ =~= old(self)@.offsets.take(offsets_len as int));
            }
        }
    }

    /// Append `bytes` if there is room for them.
    fn append(&mut self, bytes: &[u8]) -> (r: Result<(), Error>)
        ensures
            wrote(old(self)@, final(self)@, r, bytes@),
    {
        if bytes.len() > usize::MAX - self.data.len() {
            return Err(Error::StdioError);
        }
        self.put(bytes);
        Ok(())
    }

    /// Write an i32 to the parcel, little-endian.
    pub fn write_i32(&mut self, data: i32) -> (r: Result<(), Error>)
        ensures
            wrote(old(self)@, final(self)@, r, le32(bits_of_i32(data))),
    {
        let bytes = encode_i32(data);
        self.append(bytes.as_slice())
    }

    /// Write an u32 to the parcel, little-endian.
    pub fn write_u32(&mut self, data: u32) -> (r: Result<(), Error>)
        ensures
            wrote(old(self)@, final(self)@, r, le32(data)),
    {
        let bytes = encode_u32(data);
        self.append(bytes.as_slice())
    }

    /// Write an u64 to the parcel, little-endian.
    pub fn write_u64(&mut self, data: u64) -> (r: Result<(), Error>)
        ensures
            wrote(old(self)@, final(self)@, r, le64(data)),
    {
        let bytes = encode_u64(data);
        self.append(bytes.as_slice())
    }

    /// Write an u16 to the parcel, little-endian.
    pub fn write_u16(&mut self, data: u16) -> (r: Result<(), Error>)
        ensures
            wrote(old(self)@, final(self)@, r, le16(data)),
    {
        let bytes = encode_u16(data);
        self.append(bytes.as_slice())
    }

    /// Write a bool to the parcel: four bytes, 1 for true and 0 for false.
    pub fn write_bool(&mut self, data: bool) -> (r: Result<(), Error>)
        ensures
            wrote(old(self)@, final(self)@, r, le32(if data { 1u32 } else { 0u32 })),
    {
        self.write_u32(if data { 1 } else { 0 })
    }

    /// Write an u8 to the parcel.
    pub fn write_u8(&mut self, data: u8) -> (r: Result<(), Error>)
        ensures
            wrote(old(self)@, final(self)@, r, seq![data]),
    {
        let bytes: [u8; 1] = [data];
        assert(bytes@ =~= seq![data]);
        self.append(bytes.as_slice())
    }

    /// Write an usize to the parcel: always eight bytes, little-endian.
    pub fn write_usize(&mut self, data: usize) -> (r: Result<(), Error>)
        ensures
            wrote(old(self)@, final(self)@, r, le64(data as u64)),
    {
        self.write_u64(data as u64)
    }

    /// Write a slice of data to the parcel, zero-padded to a multiple of four bytes.
    pub fn write(&mut self, data: &[u8]) -> (r: Result<(), Error>)
        ensures
            wrote(old(self)@, final(self)@, r, pad4(data@)),
            r is Ok ==> (final(self)@.data.len() % 4 == 0 <==> old(self)@.data.len() % 4 == 0),
    {
        let mut padded = copy_of(data);
        pad_to_four(&mut padded);
        proof {
            lemma_pad4(data@);
        }
        self.append(padded.as_slice())
    }

    /// Step over the next `n` bytes if there are that many: the index at
    /// which they start, or an error that leaves the cursor where it was.
    fn advance(&mut self, n: usize) -> (r: Result<usize, Error>)
        ensures
            match r {
                Ok(start) => old(self)@.has(n as int) && start == old(self)@.position && start + n
                    <= usize::MAX && final(self)@ == old(self)@.skip(n as int),
                Err(e) => !old(self)@.has(n as int) && e == Error::DeserializationError
                    && final(self)@ == old(self)@,
            },
    {
        let len: usize = self.data.len();
        if self.position > len as u64 {
            return Err(Error::DeserializationError);
        }
        let start: usize = self.position as usize;
        if n > len - start {
            return Err(Error::DeserializationError);
        }
        self.position = (start + n) as u64;
        Ok(start)
    }

    /// Read an u8 from the parcel.
    pub fn read_u8(&mut self) -> (r: Result<u8, Error>)
        ensures
            read_as(old(self)@, final(self)@, r, 1, old(self)@.peek(1)[0]),
    {
        match self.advance(1) {
            Ok(start) => Ok(self.data[start]),
            Err(e) => Err(e),
        }
    }

    /// Read an u16 from the parcel, little-endian.
    pub fn read_u16(&mut self) -> (r: Result<u16, Error>)
        ensures
            read_as(old(self)@, final(self)@, r, 2, from_le16(old(self)@.peek(2))),
    {
        match self.advance(2) {
            Ok(start) => Ok(decode_u16(slice_subrange(self.data.as_slice(), start, start + 2))),
            Err(e) => Err(e),
        }
    }

    /// Read an u32 from the parcel, little-endian.
    pub fn read_u32(&mut self) -> (r: Result<u32, Error>)
        ensures
            read_as(old(self)@, final(self)@, r, 4, from_le32(old(self)@.peek(4))),
    {
        match self.advance(4) {
            Ok(start) => Ok(decode_u32(slice_subrange(self.data.as_slice(), start, start + 4))),
            Err(e) => Err(e),
        }
    }

    /// Read an u64 from the parcel, little-endian.
    pub fn read_u64(&mut self) -> (r: Result<u64, Error>)
        ensures
            read_as(old(self)@, final(self)@, r, 8, from_le64(old(self)@.peek(8))),
    {
        match self.advance(8) {
            Ok(start) => Ok(decode_u64(slice_subrange(self.data.as_slice(), start, start + 8))),
            Err(e) => Err(e),
        }
    }

    /// Read an i32 from the parcel, little-endian.
    pub fn read_i32(&mut self) -> (r: Result<i32, Error>)
        ensures
            read_as(old(self)@, final(self)@, r, 4, i32_of_bits(from_le32(old(self)@.peek(4)))),
    {
        match self.advance(4) {
            Ok(start) => Ok(decode_i32(slice_subrange(self.data.as_slice(), start, start + 4))),
            Err(e) => Err(e),
        }
    }

    /// Read an usize from the parcel: eight bytes, little-endian. A value
    /// that the host's usize cannot hold is a deserialization error.
    pub fn read_usize(&mut self) -> (r: Result<usize, Error>)
        ensures
            old(self)@.has(8) && from_le64(old(self)@.peek(8)) <= usize::MAX ==> r == Ok::<
                usize,
                Error,
            >(from_le64(old(self)@.peek(8)) as usize) && final(self)@ == old(self)@.skip(8),
            !(old(self)@.has(8) && from_le64(old(self)@.peek(8)) <= usize::MAX) ==> r == Err::<
                usize,
                Error,
            >(Error::DeserializationError) && final(self)@ == old(self)@,
    {
        let before: u64 = self.position;
        match self.read_u64() {
            Ok(value) => {
                if value > usize::MAX as u64 {
                    self.position = before;
                    Err(Error::DeserializationError)
                } else {
                    Ok(value as usize)
                }
            },
            Err(e) => Err(e),
        }
    }

    /// Read an address from the parcel: a machine word in eight bytes, as
    /// [`Parcel::read_usize`] reads it.
    pub fn read_pointer(&mut self) -> (r: Result<usize, Error>)
        ensures
            old(self)@.has(8) && from_le64(old(self)@.peek(8)) <= usize::MAX ==> r == Ok::<
                usize,
                Error,
            >(from_le64(old(self)@.peek(8)) as usize) && final(self)@ == old(self)@.skip(8),
            !(old(self)@.has(8) && from_le64(old(self)@.peek(8)) <= usize::MAX) ==> r == Err::<
                usize,
                Error,
            >(Error::DeserializationError) && final(self)@ == old(self)@,
    {
        self.read_usize()
    }

    /// Read `size` bytes rounded up to a multiple of four, and step over them.
    pub fn read(&mut self, size: usize) -> (r: Result<Vec<u8>, Error>)
        ensures
            read_bytes(old(self)@, final(self)@, r, round4(size as int)),
    {
        if size > usize::MAX - 3 {
            let len: usize = self.data.len();
            assert(usize::MAX % 4 == 3);
            assert(round4(size as int) % 4 == 0);
            assert(round4(size as int) > len);
            return Err(Error::DeserializationError);
        }
        let rounded: usize = (size + 3) / 4 * 4;
        self.read_without_alignment(rounded)
    }

    /// Read exactly `size` bytes, and step over them.
    pub fn read_without_alignment(&mut self, size: usize) -> (r: Result<Vec<u8>, Error>)
        ensures
            read_bytes(old(self)@, final(self)@, r, size as int),
    {
        match self.advance(size) {
            Ok(start) => Ok(copy_of(slice_subrange(self.data.as_slice(), start, start + size))),
            Err(e) => Err(e),
        }
    }

    /// Write a string to the parcel as UTF-16.
    pub fn write_str16(&mut self, string: &str) -> (r: Result<(), Error>)
        ensures
            wrote(old(self)@, final(self)@, r, str16_wire(string@)),
            r is Ok ==> (final(self)@.data.len() % 4 == 0 <==> old(self)@.data.len() % 4 == 0),
    {
        let wire = str16_bytes(string);
        proof {
            lemma_str16_wire(string@);
        }
        self.append(wire.as_slice())
    }

    /// Write a string to the parcel as UTF-8.
    pub fn write_str(&mut self, string: &str) -> (r: Result<(), Error>)
        ensures
            wrote(old(self)@, final(self)@, r, str_wire(string@)),
            r is Ok ==> (final(self)@.data.len() % 4 == 0 <==> old(self)@.data.len() % 4 == 0),
    {
        let bytes = string.as_bytes();
        let n: usize = bytes.len();
        let count = encode_i32(#[verifier::truncate] (n as i32));
        let mut payload: Vec<u8> = copy_of(bytes);
        payload.push(0u8);
        pad_to_four(&mut payload);
        let mut wire: Vec<u8> = Vec::new();
        wire.extend_from_slice(count.as_slice());
        wire.extend_from_slice(payload.as_slice());
        proof {
            assert(wire@ =~= str_wire(string@));
            lemma_str_wire(string@);
        }
        self.append(wire.as_slice())
    }

    /// Read a UTF-16 string from the parcel.
    pub fn read_str16(&mut self) -> (r: Result<String, Error>)
        ensures
            read_text(old(self)@, final(self)@, r, parse_str16(old(self)@)),
    {
        let before: u64 = self.position;
        let count: i32 = match self.read_i32() {
            Ok(count) => count,
            Err(e) => {
                return Err(e);
            },
        };
        if count == -1 {
            return Ok(String::new());
        }
        if count < -1 || (count as u64 + 1) * 2 > (usize::MAX - 3) as u64 {
            assert(self.data@.len() <= usize::MAX) by {
                vstd::std_specs::vec::axiom_spec_len(&self.data);
            }
            self.position = before;
            return Err(Error::DeserializationError);
        }
        let units_len: usize = count as usize;
        let size: usize = ((units_len + 1) * 2 + 3) / 4 * 4;
        let start: usize = match self.advance(size) {
            Ok(start) => start,
            Err(e) => {
                self.position = before;
                return Err(e);
            },
        };
        let mut units: Vec<u16> = Vec::new();
        let mut i: usize = 0;
        while i < units_len
            invariant
                i <= units_len,
                start + 2 * units_len + 2 <= self.data@.len(),
                start + 2 * units_len + 2 <= usize::MAX,
                units@ =~= units_of_le(self.data@.subrange(start as int, start + 2 * i)),
            decreases units_len - i,
        {
            let at: usize = start + 2 * i;
            let unit = decode_u16(slice_subrange(self.data.as_slice(), at, at + 2));
            units.push(unit);
            i += 1;
        }
        match decode_utf16(units.as_slice()) {
            Ok(text) => Ok(text),
            Err(e) => {
                self.position = before;
                Err(e)
            },
        }
    }

    /// Read a UTF-8 string from the parcel.
    pub fn read_str(&mut self) -> (r: Result<String, Error>)
        ensures
            read_text(old(self)@, final(self)@, r, parse_str(old(self)@)),
    {
        let before: u64 = self.position;
        let count: i32 = match self.read_i32() {
            Ok(count) => count,
            Err(e) => {
                return Err(e);
            },
        };
        if count == -1 {
            return Ok(String::new());
        }
        if count < -1 || count as u64 + 1 > (usize::MAX - 3) as u64 {
            assert(self.data@.len() <= usize::MAX) by {
                vstd::std_specs::vec::axiom_spec_len(&self.data);
            }
            self.position = before;
            return Err(Error::DeserializationError);
        }
        let bytes_len: usize = count as usize;
        let size: usize = (bytes_len + 1 + 3) / 4 * 4;
        let start: usize = match self.advance(size) {
            Ok(start) => start,
            Err(e) => {
                self.position = before;
                return Err(e);
            },
        };
        let bytes = copy_of(slice_subrange(self.data.as_slice(), start, start + bytes_len));
        match string_from_utf8(bytes) {
            Ok(text) => Ok(text),
            Err(_) => {
                self.position = before;
                Err(Error::Utf8Error)
            },
        }
    }

    /// Read an interface token from the parcel, and return the interface name.
    pub fn read_interface_token(&mut self) -> (r: Result<String, Error>)
        ensures
            read_text(old(self)@, final(self)@, r, parse_token(old(self)@)),
    {
        let before: u64 = self.position;
        match self.read_i32() {
            Ok(_) => {},
            Err(e) => {
                return Err(e);
            },
        }
        let uid: i32 = match self.read_i32() {
            Ok(uid) => uid,
            Err(e) => {
                self.position = before;
                return Err(e);
            },
        };
        let marker: i32 = match self.read_i32() {
            Ok(marker) => marker,
            Err(e) => {
                self.position = before;
                return Err(e);
            },
        };
        if uid != UNSET_WORK_SOURCE || marker != HEADER {
            self.position = before;
            return Err(Error::DeserializationError);
        }
        match self.read_str16() {
            Ok(name) => Ok(name),
            Err(e) => {
                self.position = before;
                Err(e)
            },
        }
    }

    /// Write an interface token to the parcel.
    pub fn write_interface_token(&mut self, name: &str) -> (r: Result<(), Error>)
        ensures
            wrote(old(self)@, final(self)@, r, token_wire(name@)),
    {
        let mut wire: Vec<u8> = Vec::new();
        let policy = encode_i32(STRICT_MODE_POLICY);
        wire.extend_from_slice(policy.as_slice());
        let uid = encode_i32(UNSET_WORK_SOURCE);
        wire.extend_from_slice(uid.as_slice());
        let marker = encode_i32(HEADER);
        wire.extend_from_slice(marker.as_slice());
        let text = str16_bytes(name);
        wire.extend_from_slice(text.as_slice());
        assert(wire@ =~= token_wire(name@));
        self.append(wire.as_slice())
    }

    /// Write a flat object given as raw bytes: the place at which it will
    /// begin is recorded in the offsets table, then the bytes are written
    /// as they are, without padding. Where the cursor stood at the end, as
    /// it does after every write, the recorded place is the cursor
    /// position. Without room for the bytes the write fails with an i/o
    /// error, and the parcel is as before.
    pub fn write_object(&mut self, object: &[u8]) -> (r: Result<(), Error>)
        ensures
            old(self)@.fits(object@.len() as int) ==> r is Ok && final(self)@ == old(self)@.mark().put(object@) && final(self)@.offsets.last() == old(self)@.data.len(),
            !old(self)@.fits(object@.len() as int) ==> r == Err::<(), Error>(Error::StdioError)
                && final(self)@ == old(self)@,
            r is Ok && old(self)@.at_end() ==> final(self)@.offsets.last() == old(self)@.position,
            r is Ok && old(self)@.offsets_in_bounds() && object@.len() > 0 ==> final(self)@.offsets_in_bounds(),
    {
        if object.len() > usize::MAX - self.data.len() {
            return Err(Error::StdioError);
        }
        proof {
            if self@.offsets_in_bounds() {
                lemma_offsets_stay_in_bounds(self@, object@, ParcelView::empty());
            }
        }
        self.object_offsets.push(self.data.len());
        self.put(object);
        Ok(())
    }

    /// Read the `size` raw bytes of a flat object, and step over them.
    pub fn read_object(&mut self, size: usize) -> (r: Result<Vec<u8>, Error>)
        ensures
            read_bytes(old(self)@, final(self)@, r, size as int),
    {
        self.read_without_alignment(size)
    }

    /// Append `bytes`, and leave the cursor at the new end.
    pub(crate) fn put(&mut self, bytes: &[u8])
        requires
            old(self)@.fits(bytes@.len() as int),
        ensures
            final(self)@ == old(self)@.put(bytes@),
    {
        self.data.extend_from_slice(bytes);
        let end: usize = self.data.len();
        self.position = end as u64;
        assert(self.data@ =~= old(self).data@ + bytes@);
    }
}

/// The wire form of a UTF-16 string.
fn str16_bytes(string: &str) -> (wire: Vec<u8>)
    ensures
        wire@ == str16_wire(string@),
{
    let units = encode_utf16(string);
    let n: usize = units.len();
    let count = encode_i32(#[verifier::truncate] (n as i32));
    let mut payload: Vec<u8> = Vec::new();
    let mut i: usize = 0;
    while i < n
        invariant
            i <= n,
            n == units@.len(),
            payload@ =~= units_le(units@.take(i as int)),
        decreases n - i,
    {
        let pair = encode_u16(units[i]);
        payload.extend_from_slice(pair.as_slice());
        proof {
            assert(units@.take(i + 1) =~= units@.take(i as int).push(units@[i as int]));
        }
        i += 1;
    }
    payload.push(0u8);
    payload.push(0u8);
    proof {
        assert(units@.take(n as int) =~= units@);
        assert(payload@ =~= units_le(units@.push(0u16)));
    }
    pad_to_four(&mut payload);
    let mut wire: Vec<u8> = Vec::new();
    wire.extend_from_slice(count.as_slice());
    wire.extend_from_slice(payload.as_slice());
    assert(wire@ =~= str16_wire(string@));
    wire
}

/// Push zero bytes onto `bytes` until its length is a multiple of four.
fn pad_to_four(bytes: &mut Vec<u8>)
    ensures
        final(bytes)@ == pad4(old(bytes)@),
{
    let ghost body = bytes@;
    proof {
        lemma_round4(body.len() as int);
    }
    while bytes.len() % 4 != 0
        invariant
            body.len() <= bytes@.len() <= round4(body.len() as int),
            round4(body.len() as int) % 4 == 0,
            bytes@ =~= body + zeros(bytes@.len() - body.len()),
        decreases round4(body.len() as int) - bytes@.len(),
    {
        bytes.push(0u8);
    }
    assert(bytes@ =~= pad4(body));
}

/// The error type of `String::from_utf8`.
#[verifier::external_type_specification]
#[verifier::external_body]
pub struct ExFromUtf8Error(std::string::FromUtf8Error);

/// `String::from_utf8` of std: the string whose UTF-8 encoding `bytes` is,
/// and an error where `bytes` is not well-formed UTF-8.
#[verifier::external_body]
fn string_from_utf8(bytes: Vec<u8>) -> (r: Result<String, std::string::FromUtf8Error>)
    ensures
        r is Ok <==> valid_utf8(bytes@),
        r is Ok ==> r->Ok_0@ == decode_utf8(bytes@),
{
    String::from_utf8(bytes)
}

/// A fresh vector with the elements of `bytes`.
fn copy_of(bytes: &[u8]) -> (v: Vec<u8>)
    ensures
        v@ == bytes@,
{
    let mut v: Vec<u8> = Vec::new();
    let mut i: usize = 0;
    while i < bytes.len()
        invariant
            i <= bytes.len(),
            v@ == bytes@.take(i as int),
        decreases bytes.len() - i,
    {
        v.push(bytes[i]);
        i += 1;
    }
    assert(bytes@.take(bytes@.len() as int) =~= bytes@);
    v
}

} // verus!
