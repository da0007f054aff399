//! Flat objects: the fixed-layout records that carry binders, handles and
//! file descriptors through a parcel.

use crate::error::Error;
use crate::parcel::{lemma_peek_parts, Parcel, ParcelView};
use crate::parcelable::{lemma_object_offset, lemma_put_frame_plain, sent, Frame, Parcelable};
use crate::protocol::pack_chars;
use crate::wire::{
    encode_u32, encode_u64, from_le32, from_le64, le32, le64, lemma_le_round_trip,
};
use vstd::prelude::*;

verus! {

/// The last byte of every type tag.
pub const BINDER_TYPE_LARGE: u8 = 0x85;

/// The stability word of a binder object: "system".
pub const STABILITY_SYSTEM: u32 = 0xc;

/// The flags of a file-descriptor object.
pub const FD_FLAGS: u32 = 0x17f;

/// What kind of thing a flat object carries.
#[derive(Debug, Hash, Clone, Copy, PartialEq, Eq, Structural)]
pub enum BinderType {
    Binder,
    WeakBinder,
    Handle,
    WeakHandle,
    Fd,
    Fda,
    Ptr,
}

impl BinderType {
    /// The type tag of each kind: three characters and the closing byte,
    /// packed into a word.
    pub open spec fn tag_spec(self) -> u32 {
        match self {
            BinderType::Binder => pack_chars('s' as u8, 'b' as u8, '*' as u8, BINDER_TYPE_LARGE),
            BinderType::WeakBinder => pack_chars(
                'w' as u8,
                'b' as u8,
                '*' as u8,
                BINDER_TYPE_LARGE,
            ),
            BinderType::Handle => pack_chars('s' as u8, 'h' as u8, '*' as u8, BINDER_TYPE_LARGE),
            BinderType::WeakHandle => pack_chars(
                'w' as u8,
                'h' as u8,
                '*' as u8,
                BINDER_TYPE_LARGE,
            ),
            BinderType::Fd => pack_chars('f' as u8, 'd' as u8, '*' as u8, BINDER_TYPE_LARGE),
            BinderType::Fda => pack_chars('f' as u8, 'd' as u8, 'a' as u8, BINDER_TYPE_LARGE),
            BinderType::Ptr => pack_chars('p' as u8, 't' as u8, '*' as u8, BINDER_TYPE_LARGE),
        }
    }

    /// The type tag of this kind.
    pub fn tag(self) -> (tag: u32)
        ensures
            tag == self.tag_spec(),
    {
        match self {
            BinderType::Binder => 0x73622a85,
            BinderType::WeakBinder => 0x77622a85,
            BinderType::Handle => 0x73682a85,
            BinderType::WeakHandle => 0x77682a85,
            BinderType::Fd => 0x66642a85,
            BinderType::Fda => 0x66646185,
            BinderType::Ptr => 0x70742a85,
        }
    }

    /// The kind with type tag `tag`, if there is one.
    pub open spec fn of_tag(tag: u32) -> Option<BinderType> {
        if tag == BinderType::Binder.tag_spec() {
            Some(BinderType::Binder)
        } else if tag == BinderType::WeakBinder.tag_spec() {
            Some(BinderType::WeakBinder)
        } else if tag == BinderType::Handle.tag_spec() {
            Some(BinderType::Handle)
        } else if tag == BinderType::WeakHandle.tag_spec() {
            Some(BinderType::WeakHandle)
        } else if tag == BinderType::Fd.tag_spec() {
            Some(BinderType::Fd)
        } else if tag == BinderType::Fda.tag_spec() {
            Some(BinderType::Fda)
        } else if tag == BinderType::Ptr.tag_spec() {
            Some(BinderType::Ptr)
        } else {
            None
        }
    }

    /// The kind with type tag `tag`, if there is one.
    pub fn from_tag(tag: u32) -> (r: Option<BinderType>)
        ensures
            r == BinderType::of_tag(tag),
    {
        if tag == 0x73622a85 {
            Some(BinderType::Binder)
        } else if tag == 0x77622a85 {
            Some(BinderType::WeakBinder)
        } else if tag == 0x73682a85 {
            Some(BinderType::Handle)
        } else if tag == 0x77682a85 {
            Some(BinderType::WeakHandle)
        } else if tag == 0x66642a85 {
            Some(BinderType::Fd)
        } else if tag == 0x66646185 {
            Some(BinderType::Fda)
        } else if tag == 0x70742a85 {
            Some(BinderType::Ptr)
        } else {
            None
        }
    }
}

/// Every kind is the kind of its own tag.
pub proof fn lemma_tag_round_trip(kind: BinderType)
    ensures
        BinderType::of_tag(kind.tag_spec()) == Some(kind),
{
}

impl Parcelable for BinderType {
    type Model = BinderType;

    open spec fn model(&self) -> BinderType {
        *self
    }

    open spec fn legal(model: BinderType) -> bool {
        true
    }

    open spec fn frame(model: BinderType) -> Frame {
        Frame::plain(le32(model.tag_spec()))
    }

    open spec fn parse(p: ParcelView) -> Result<(BinderType, nat), Error> {
        if !p.has(4) {
            Err(Error::DeserializationError)
        } else {
            match BinderType::of_tag(from_le32(p.peek(4))) {
                Some(kind) => Ok((kind, (p.position + 4) as nat)),
                None => Err(Error::BadEnumValue),
            }
        }
    }

    proof fn lemma_round_trip(model: BinderType, p: ParcelView) {
        lemma_le_round_trip(0, model.tag_spec(), 0, 0);
        lemma_tag_round_trip(model);
    }

    fn deserialize(parcel: &mut Parcel) -> (r: Result<BinderType, Error>) {
        let before: u64 = parcel.position();
        match parcel.read_u32() {
            Ok(tag) => match BinderType::from_tag(tag) {
                Some(kind) => Ok(kind),
                None => {
                    parcel.set_position(before);
                    Err(Error::BadEnumValue)
                },
            },
            Err(e) => Err(e),
        }
    }

    fn serialize(&self, parcel: &mut Parcel) -> (r: Result<(), Error>) {
        proof {
            lemma_put_frame_plain(old(parcel)@, le32(self.tag_spec()));
        }
        parcel.write_u32(self.tag())
    }
}

/// A flat object that names a binder or a handle: type tag, flags, the
/// handle or pointer word, a cookie, and the stability word.
#[derive(Debug, Clone, Copy, PartialEq, Eq, Structural)]
pub struct BinderFlatObject {
    pub binder_type: BinderType,
    pub flags: u32,
    pub handle: usize,
    pub cookie: usize,
    pub stability: u32,
}

/// The 28 bytes of a flat binder object.
pub open spec fn flat_object_wire(object: BinderFlatObject) -> Seq<u8> {
    le32(object.binder_type.tag_spec()) + le32(object.flags) + le64(object.handle as u64) + le64(
        object.cookie as u64,
    ) + le32(object.stability)
}

/// The bytes of a flat object without stability word: 24 bytes.
pub open spec fn fd_wire(object: BinderFd) -> Seq<u8> {
    le32(object.binder_type.tag_spec()) + le32(object.flags) + le64(object.handle as u64) + le64(
        object.cookie as u64,
    )
}

/// What reading the head of a flat object at the cursor gives: type,
/// flags, handle and cookie, which take 24 bytes.
pub open spec fn parse_object_head(p: ParcelView) -> Result<BinderFd, Error> {
    if !p.has(4) {
        Err(Error::DeserializationError)
    } else {
        match BinderType::of_tag(from_le32(p.peek(4))) {
            None => Err(Error::BadEnumValue),
            Some(kind) => if !p.has(24) || from_le64(p.skip(8).peek(8)) > usize::MAX || from_le64(
                p.skip(16).peek(8),
            ) > usize::MAX {
                Err(Error::DeserializationError)
            } else {
                Ok(
                    BinderFd {
                        binder_type: kind,
                        flags: from_le32(p.skip(4).peek(4)),
                        handle: from_le64(p.skip(8).peek(8)) as usize,
                        cookie: from_le64(p.skip(16).peek(8)) as usize,
                    },
                )
            },
        }
    }
}

/// A parcel that holds the 24 bytes of an object head reads as that head.
pub proof fn lemma_object_head_round_trip(p: ParcelView, object: BinderFd, rest: Seq<u8>)
    requires
        p.has((fd_wire(object) + rest).len() as int),
        p.peek((fd_wire(object) + rest).len() as int) == fd_wire(object) + rest,
    ensures
        fd_wire(object).len() == 24,
        parse_object_head(p) == Ok::<BinderFd, Error>(object),
{
    let wire = fd_wire(object) + rest;
    lemma_le_round_trip(0, object.binder_type.tag_spec(), object.handle as u64, 0);
    lemma_le_round_trip(0, object.flags, object.cookie as u64, 0);
    lemma_tag_round_trip(object.binder_type);
    lemma_peek_parts(p, wire, 0, 4);
    lemma_peek_parts(p, wire, 4, 8);
    lemma_peek_parts(p, wire, 8, 16);
    lemma_peek_parts(p, wire, 16, 24);
    assert(p.skip(0) == p);
    assert(wire.subrange(0, 4) =~= le32(object.binder_type.tag_spec()));
    assert(wire.subrange(4, 8) =~= le32(object.flags));
    assert(wire.subrange(8, 16) =~= le64(object.handle as u64));
    assert(wire.subrange(16, 24) =~= le64(object.cookie as u64));
}

/// Read type, flags, handle and cookie of a flat object.
fn read_object_head(parcel: &mut Parcel) -> (r: Result<BinderFd, Error>)
    ensures
        match parse_object_head(old(parcel)@) {
            Ok(head) => r == Ok::<BinderFd, Error>(head) && final(parcel)@ == old(parcel)@.skip(24),
            Err(e) => r == Err::<BinderFd, Error>(e) && final(parcel)@ == old(parcel)@,
        },
{
    let before: u64 = parcel.position();
    let binder_type = match BinderType::deserialize(parcel) {
        Ok(kind) => kind,
        Err(e) => {
            return Err(e);
        },
    };
    let flags: u32 = match parcel.read_u32() {
        Ok(flags) => flags,
        Err(e) => {
            parcel.set_position(before);
            return Err(e);
        },
    };
    let handle: usize = match parcel.read_usize() {
        Ok(handle) => handle,
        Err(e) => {
            parcel.set_position(before);
            return Err(e);
        },
    };
    let cookie: usize = match parcel.read_usize() {
        Ok(cookie) => cookie,
        Err(e) => {
            parcel.set_position(before);
            return Err(e);
        },
    };
    Ok(BinderFd { binder_type, flags, handle, cookie })
}

/// The bytes of type, flags, handle and cookie of a flat object.
fn head_bytes(object: &BinderFd) -> (bytes: Vec<u8>)
    ensures
        bytes@ == fd_wire(*object),
{
    let mut bytes: Vec<u8> = Vec::new();
    let tag = encode_u32(object.binder_type.tag());
    bytes.extend_from_slice(tag.as_slice());
    let flags = encode_u32(object.flags);
    bytes.extend_from_slice(flags.as_slice());
    let handle = encode_u64(object.handle as u64);
    bytes.extend_from_slice(handle.as_slice());
    let cookie = encode_u64(object.cookie as u64);
    bytes.extend_from_slice(cookie.as_slice());
    assert(bytes@ =~= fd_wire(*object));
    bytes
}

impl BinderFlatObject {
    /// A flat object of the given kind, with the stability word "system".
    pub fn new(binder_type: BinderType, handle: usize, cookie: usize, flags: u32) -> (object:
        BinderFlatObject)
        ensures
            object == (BinderFlatObject {
                binder_type,
                flags,
                handle,
                cookie,
                stability: STABILITY_SYSTEM,
            }),
    {
        BinderFlatObject { binder_type, flags, handle, cookie, stability: STABILITY_SYSTEM }
    }

    /// The handle or pointer word.
    pub fn handle(&self) -> (handle: usize)
        ensures
            handle == self.handle,
    {
        self.handle
    }

    /// The cookie word.
    pub fn cookie(&self) -> (cookie: usize)
        ensures
            cookie == self.cookie,
    {
        self.cookie
    }

    /// Type, flags, handle and cookie of this object.
    pub open spec fn head(self) -> BinderFd {
        BinderFd {
            binder_type: self.binder_type,
            flags: self.flags,
            handle: self.handle,
            cookie: self.cookie,
        }
    }
}

impl Parcelable for BinderFlatObject {
    type Model = BinderFlatObject;

    open spec fn model(&self) -> BinderFlatObject {
        *self
    }

    open spec fn legal(model: BinderFlatObject) -> bool {
        true
    }

    open spec fn frame(model: BinderFlatObject) -> Frame {
        Frame::object(flat_object_wire(model))
    }

    open spec fn parse(p: ParcelView) -> Result<(BinderFlatObject, nat), Error> {
        match parse_object_head(p) {
            Ok(head) => if p.has(28) {
                Ok(
                    (
                        BinderFlatObject {
                            binder_type: head.binder_type,
                            flags: head.flags,
                            handle: head.handle,
                            cookie: head.cookie,
                            stability: from_le32(p.skip(24).peek(4)),
                        },
                        (p.position + 28) as nat,
                    ),
                )
            } else {
                Err(Error::DeserializationError)
            },
            Err(e) => Err(e),
        }
    }

    proof fn lemma_round_trip(model: BinderFlatObject, p: ParcelView) {
        let wire = flat_object_wire(model);
        lemma_le_round_trip(0, model.stability, 0, 0);
        assert(wire =~= fd_wire(model.head()) + le32(model.stability));
        lemma_object_head_round_trip(p, model.head(), le32(model.stability));
        lemma_peek_parts(p, wire, 24, 28);
        assert(wire.subrange(24, 28) =~= le32(model.stability));
    }

    fn deserialize(parcel: &mut Parcel) -> (r: Result<BinderFlatObject, Error>) {
        let before: u64 = parcel.position();
        let head = match read_object_head(parcel) {
            Ok(head) => head,
            Err(e) => {
                return Err(e);
            },
        };
        match parcel.read_u32() {
            Ok(stability) => Ok(
                BinderFlatObject {
                    binder_type: head.binder_type,
                    flags: head.flags,
                    handle: head.handle,
                    cookie: head.cookie,
                    stability,
                },
            ),
            Err(e) => {
                parcel.set_position(before);
                Err(e)
            },
        }
    }

    fn serialize(&self, parcel: &mut Parcel) -> (r: Result<(), Error>) {
        let head = BinderFd {
            binder_type: self.binder_type,
            flags: self.flags,
            handle: self.handle,
            cookie: self.cookie,
        };
        let mut bytes = head_bytes(&head);
        let stability = encode_u32(self.stability);
        bytes.extend_from_slice(stability.as_slice());
        proof {
            assert(bytes@ =~= fd_wire(head) + le32(self.stability));
            assert(fd_wire(head) + le32(self.stability) =~= flat_object_wire(*self));
            lemma_object_offset(old(parcel)@, bytes@);
        }
        parcel.write_object(bytes.as_slice())
    }
}

/// A flat object that carries a file descriptor: type tag, flags, the
/// descriptor, and a cookie. It has no stability word.
#[derive(Debug, Clone, Copy, PartialEq, Eq, Structural)]
pub struct BinderFd {
    pub binder_type: BinderType,
    pub flags: u32,
    pub handle: usize,
    pub cookie: usize,
}

impl BinderFd {
    /// A flat object of the given kind.
    pub fn new(binder_type: BinderType, handle: usize, cookie: usize, flags: u32) -> (object:
        BinderFd)
        ensures
            object == (BinderFd { binder_type, flags, handle, cookie }),
    {
        BinderFd { binder_type, flags, handle, cookie }
    }

    /// The descriptor or handle word.
    pub fn handle(&self) -> (handle: usize)
        ensures
            handle == self.handle,
    {
        self.handle
    }

    /// The cookie word.
    pub fn cookie(&self) -> (cookie: usize)
        ensures
            cookie == self.cookie,
    {
        self.cookie
    }
}

impl Parcelable for BinderFd {
    type Model = BinderFd;

    open spec fn model(&self) -> BinderFd {
        *self
    }

    open spec fn legal(model: BinderFd) -> bool {
        true
    }

    open spec fn frame(model: BinderFd) -> Frame {
        Frame::object(fd_wire(model))
    }

    open spec fn parse(p: ParcelView) -> Result<(BinderFd, nat), Error> {
        match parse_object_head(p) {
            Ok(head) => Ok((head, (p.position + 24) as nat)),
            Err(e) => Err(e),
        }
    }

    proof fn lemma_round_trip(model: BinderFd, p: ParcelView) {
        assert(fd_wire(model) + Seq::<u8>::empty() =~= fd_wire(model));
        lemma_object_head_round_trip(p, model, Seq::empty());
    }

    fn deserialize(parcel: &mut Parcel) -> (r: Result<BinderFd, Error>) {
        read_object_head(parcel)
    }

    fn serialize(&self, parcel: &mut Parcel) -> (r: Result<(), Error>) {
        let bytes = head_bytes(self);
        proof {
            lemma_object_offset(old(parcel)@, bytes@);
        }
        parcel.write_object(bytes.as_slice())
    }
}

/// What reading a file descriptor at the cursor gives: the descriptor and
/// the position after its flat object, or the error. An object of another
/// kind is a deserialization error.
pub open spec fn parse_file_descriptor(p: ParcelView) -> Result<(i32, nat), Error> {
    match parse_object_head(p) {
        Ok(head) => if head.binder_type == BinderType::Fd {
            Ok((head.handle as i32, (p.position + 24) as nat))
        } else {
            Err(Error::DeserializationError)
        },
        Err(e) => Err(e),
    }
}

impl Parcel {
    /// Write a binder object that stands for the local object at address
    /// `object`. The place where the object begins is recorded as the last
    /// offset; it is the cursor position where the cursor stood at the end.
    pub fn write_binder(&mut self, object: usize) -> (r: Result<(), Error>)
        ensures
            sent(
                old(self)@,
                final(self)@,
                r,
                Frame::object(
                    flat_object_wire(
                        BinderFlatObject {
                            binder_type: BinderType::Binder,
                            flags: 0,
                            handle: object,
                            cookie: 0,
                            stability: STABILITY_SYSTEM,
                        },
                    ),
                ),
            ),
            r is Ok ==> final(self)@.offsets.last() == old(self)@.data.len(),
            r is Ok && old(self)@.at_end() ==> final(self)@.offsets.last() == old(self)@.position,
    {
        proof {
            lemma_object_offset(
                old(self)@,
                flat_object_wire(
                    BinderFlatObject {
                        binder_type: BinderType::Binder,
                        flags: 0,
                        handle: object,
                        cookie: 0,
                        stability: STABILITY_SYSTEM,
                    },
                ),
            );
        }
        BinderFlatObject::new(BinderType::Binder, object, 0, 0).serialize(self)
    }

    /// Write a file descriptor into the parcel; `take_ownership` hands the
    /// descriptor over to the receiver. The place where the object begins
    /// is recorded as the last offset; it is the cursor position where the
    /// cursor stood at the end.
    pub fn write_file_descriptor(&mut self, fd: i32, take_ownership: bool) -> (r: Result<
        (),
        Error,
    >)
        ensures
            sent(
                old(self)@,
                final(self)@,
                r,
                Frame::object(
                    fd_wire(
                        BinderFd {
                            binder_type: BinderType::Fd,
                            flags: FD_FLAGS,
                            handle: fd as usize,
                            cookie: if take_ownership {
                                1
                            } else {
                                0
                            },
                        },
                    ),
                ),
            ),
            r is Ok ==> final(self)@.offsets.last() == old(self)@.data.len(),
            r is Ok && old(self)@.at_end() ==> final(self)@.offsets.last() == old(self)@.position,
    {
        let handle: usize = #[verifier::truncate] (fd as usize);
        let object = BinderFd::new(BinderType::Fd, handle, if take_ownership { 1 } else { 0 }, FD_FLAGS);
        proof {
            lemma_object_offset(old(self)@, fd_wire(object));
        }
        object.serialize(self)
    }

    /// Read a file descriptor from the parcel.
    pub fn read_file_descriptor(&mut self) -> (r: Result<i32, Error>)
        ensures
            match parse_file_descriptor(old(self)@) {
                Ok((fd, end)) => r == Ok::<i32, Error>(fd) && final(self)@ == old(self)@.at(end),
                Err(e) => r == Err::<i32, Error>(e) && final(self)@ == old(self)@,
            },
    {
        let before: u64 = self.position();
        match BinderFd::deserialize(self) {
            Ok(object) => {
                if object.binder_type == BinderType::Fd {
                    Ok(#[verifier::truncate] (object.handle as i32))
                } else {
                    self.set_position(before);
                    Err(Error::DeserializationError)
                }
            },
            Err(e) => Err(e),
        }
    }
}

} // verus!
