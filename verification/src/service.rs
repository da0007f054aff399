//! The service layer: the requests that go to the service manager, the
//! framing of calls to a service, and the decisions of a service that
//! listens for transactions.

use crate::binder::{handle_command, Binder};
use crate::error::Error;
use crate::object::{flat_object_wire, BinderFlatObject, BinderType, STABILITY_SYSTEM};
use crate::parcel::{
    appended, can_append, lemma_put_put, parse_str16, parse_token, str16_wire, token_wire,
    Parcel, ParcelView,
};
use crate::parcelable::{lemma_put_frame_join, lemma_put_frame_plain, Frame, Parcelable};
use crate::protocol::{
    BinderDriverCommandProtocol, Transaction, TransactionFlags, TF_ACCEPT_FDS, TF_ALL,
    TF_COLLECT_NOTED_APP_OPS,
};
use crate::transaction::BinderTransactionData;
use crate::wire::{from_le32, le32};
use vstd::prelude::*;

verus! {

/// The handle of the service manager.
pub const SERVICE_MANAGER_HANDLE: i32 = 0;

/// The interface name of the service manager.
pub const SERVICE_MANAGER_INTERFACE_TOKEN: &'static str = "android.os.IServiceManager";

/// The functions of the service manager.
#[derive(Debug, Clone, Copy, PartialEq, Eq, Structural)]
pub enum ServiceManagerFunctions {
    GetService,
    CheckService,
    AddService,
    ListServices,
}

impl ServiceManagerFunctions {
    /// The transaction code of each function.
    pub open spec fn code_spec(self) -> u32 {
        match self {
            ServiceManagerFunctions::GetService => 1,
            ServiceManagerFunctions::CheckService => 2,
            ServiceManagerFunctions::AddService => 3,
            ServiceManagerFunctions::ListServices => 4,
        }
    }

    /// The transaction code of this function.
    pub fn code(self) -> (code: u32)
        ensures
            code == self.code_spec(),
    {
        match self {
            ServiceManagerFunctions::GetService => 1,
            ServiceManagerFunctions::CheckService => 2,
            ServiceManagerFunctions::AddService => 3,
            ServiceManagerFunctions::ListServices => 4,
        }
    }
}

/// What a service reported when a call failed: its status, a message, a
/// number, and a second message.
#[derive(Debug)]
pub struct ServiceFailure {
    pub status: u32,
    pub message: String,
    pub code: u32,
    pub detail: String,
}

/// How a call to a service can fail.
#[derive(Debug)]
pub enum CallError {
    /// The reply could not be read.
    Transport(Error),
    /// The service answered with a status other than zero.
    Service(ServiceFailure),
}

/// What the reply to a call comes to: the position at which the result
/// starts where the status is zero; the failure that the service reported
/// where it is not; the error where the reply cannot be read.
pub enum Outcome {
    Success { position: nat },
    Failure { status: u32, message: Seq<char>, code: u32, detail: Seq<char> },
    Unreadable { error: Error },
}

/// The reply `p` of a service, read from its cursor: a status word, and
/// after a status other than zero a UTF-16 message, a number and a second
/// UTF-16 message.
pub open spec fn outcome(p: ParcelView) -> Outcome {
    if !p.has(4) {
        Outcome::Unreadable { error: Error::DeserializationError }
    } else if from_le32(p.peek(4)) == 0 {
        Outcome::Success { position: p.position + 4 }
    } else {
        match parse_str16(p.skip(4)) {
            Err(error) => Outcome::Unreadable { error },
            Ok((message, after_message)) => if !p.at(after_message).has(4) {
                Outcome::Unreadable { error: Error::DeserializationError }
            } else {
                match parse_str16(p.at(after_message).skip(4)) {
                    Err(error) => Outcome::Unreadable { error },
                    Ok((detail, _)) => Outcome::Failure {
                        status: from_le32(p.peek(4)),
                        message,
                        code: from_le32(p.at(after_message).peek(4)),
                        detail,
                    },
                }
            },
        }
    }
}

/// The interface token of `interface` fits a buffer, and the payload `data`
/// can be appended to it.
pub open spec fn call_fits(interface: Seq<char>, data: ParcelView) -> bool {
    token_wire(interface).len() <= usize::MAX && can_append(
        ParcelView::empty().put(token_wire(interface)),
        data,
    )
}

/// How building a parcel from `frame` relates to the result: a frame whose
/// bytes fit a buffer is built, a larger one is an i/o error.
pub open spec fn built(r: Result<Parcel, Error>, frame: Frame) -> bool {
    match r {
        Ok(parcel) => frame.bytes.len() <= usize::MAX && parcel@ == ParcelView::empty().put_frame(
            frame,
        ),
        Err(e) => frame.bytes.len() > usize::MAX && e == Error::StdioError,
    }
}

/// A remote service: its handle, its name, and the name of its interface.
pub struct Service {
    handle: i32,
    name: String,
    interface_name: String,
}

impl Service {
    /// The service `name` with interface `interface_name` behind `handle`.
    pub fn new(name: &str, interface_name: &str, handle: i32) -> (service: Service)
        ensures
            service.handle_spec() == handle,
            service.name_spec() == name@,
            service.interface_spec() == interface_name@,
    {
        Service { handle, name: name.to_owned(), interface_name: interface_name.to_owned() }
    }

    /// The handle of the service.
    pub closed spec fn handle_spec(&self) -> i32 {
        self.handle
    }

    /// The name of the service.
    pub closed spec fn name_spec(&self) -> Seq<char> {
        self.name@
    }

    /// The name of the interface of the service.
    pub closed spec fn interface_spec(&self) -> Seq<char> {
        self.interface_name@
    }

    /// The handle of the service.
    pub fn handle(&self) -> (handle: i32)
        ensures
            handle == self.handle_spec(),
    {
        self.handle
    }

    /// The name of the interface of the service.
    pub fn interface_name(&self) -> (name: &str)
        ensures
            name@ == self.interface_spec(),
    {
        self.interface_name.as_str()
    }

    /// The flags of a call: file descriptors are accepted, and noted
    /// app-ops are collected.
    pub fn call_flags() -> (flags: TransactionFlags)
        ensures
            flags.bits == TF_ACCEPT_FDS | TF_COLLECT_NOTED_APP_OPS,
    {
        TransactionFlags { bits: TF_ACCEPT_FDS | TF_COLLECT_NOTED_APP_OPS }
    }

    /// The parcel of a call: the interface token of the service, then the
    /// caller's payload `data` with its offsets. Where the token and the
    /// payload do not fit a buffer, the call fails with an i/o error.
    pub fn call_request(&self, data: &mut Parcel) -> (r: Result<Parcel, Error>)
        ensures
            *final(data) == *old(data),
            match r {
                Ok(parcel) => call_fits(self.interface_spec(), old(data)@) && parcel@ == appended(
                    ParcelView::empty().put(token_wire(self.interface_spec())),
                    old(data)@,
                ),
                Err(e) => !call_fits(self.interface_spec(), old(data)@) && e == Error::StdioError,
            },
    {
        let mut parcel = Parcel::empty();
        match parcel.write_interface_token(self.interface_name.as_str()) {
            Ok(()) => {},
            Err(e) => {
                return Err(e);
            },
        }
        match parcel.append_parcel(data) {
            Ok(()) => Ok(parcel),
            Err(e) => Err(e),
        }
    }

    /// Read the reply of a call: on a status of zero the reply is handed
    /// back with the cursor at the result; on another status the failure
    /// that the service reported is read and returned as the error.
    pub fn call_reply(parcel: Parcel) -> (r: Result<Parcel, CallError>)
        ensures
            match outcome(parcel@) {
                Outcome::Success { position } => r is Ok && r->Ok_0@ == parcel@.at(position),
                Outcome::Failure { status, message, code, detail } => r matches Err(
                    CallError::Service(failure),
                ) && failure.status == status && failure.message@ == message && failure.code
                    == code && failure.detail@ == detail,
                Outcome::Unreadable { error } => r matches Err(CallError::Transport(e)) && e
                    == error,
            },
    {
        let mut parcel = parcel;
        let status: u32 = match parcel.read_u32() {
            Ok(status) => status,
            Err(e) => {
                return Err(CallError::Transport(e));
            },
        };
        if status == 0 {
            return Ok(parcel);
        }
        let message = match parcel.read_str16() {
            Ok(message) => message,
            Err(e) => {
                return Err(CallError::Transport(e));
            },
        };
        let code: u32 = match parcel.read_u32() {
            Ok(code) => code,
            Err(e) => {
                return Err(CallError::Transport(e));
            },
        };
        let detail = match parcel.read_str16() {
            Ok(detail) => detail,
            Err(e) => {
                return Err(CallError::Transport(e));
            },
        };
        Err(CallError::Service(ServiceFailure { status, message, code, detail }))
    }
}

/// Where a listener stands in its life.
#[derive(Debug, Clone, Copy, PartialEq, Eq, Structural)]
pub enum ListenerState {
    /// Nothing was sent yet.
    Init,
    /// The command that enters the looper was flushed.
    EnteredLooper,
    /// The listener flushes and dispatches, round after round.
    Serving,
    /// The listener was dropped: the looper is left and the device closed.
    ShuttingDown,
}

/// What happens to a listener.
#[derive(Debug, Clone, Copy, PartialEq, Eq, Structural)]
pub enum ListenerEvent {
    /// The command that enters the looper was flushed.
    LooperEntered,
    /// A round of flush and dispatch was made.
    Flushed,
    /// The listener was dropped.
    Dropped,
}

impl ListenerState {
    /// The state after an event: a drop shuts down from anywhere, and what
    /// is shut down stays so; entering the looper leads on from the start
    /// only; a round of serving needs the looper, and leads to serving.
    /// Every other event leaves the state as it is.
    pub open spec fn after(self, event: ListenerEvent) -> ListenerState {
        match (self, event) {
            (_, ListenerEvent::Dropped) => ListenerState::ShuttingDown,
            (ListenerState::Init, ListenerEvent::LooperEntered) => ListenerState::EnteredLooper,
            (ListenerState::EnteredLooper, ListenerEvent::Flushed) => ListenerState::Serving,
            (state, _) => state,
        }
    }

    /// The state after an event.
    pub fn next(self, event: ListenerEvent) -> (state: ListenerState)
        ensures
            state == self.after(event),
    {
        match (self, event) {
            (_, ListenerEvent::Dropped) => ListenerState::ShuttingDown,
            (ListenerState::Init, ListenerEvent::LooperEntered) => ListenerState::EnteredLooper,
            (ListenerState::EnteredLooper, ListenerEvent::Flushed) => ListenerState::Serving,
            (state, _) => state,
        }
    }

    /// Whether transactions are dispatched in this state.
    pub fn serves(self) -> (b: bool)
        ensures
            b == (self == ListenerState::EnteredLooper || self == ListenerState::Serving),
    {
        match self {
            ListenerState::EnteredLooper => true,
            ListenerState::Serving => true,
            _ => false,
        }
    }
}

/// A listener never leaves the shut-down state, and reaches serving only
/// through the looper.
pub proof fn lemma_listener_states(state: ListenerState, event: ListenerEvent)
    ensures
        ListenerState::ShuttingDown.after(event) == ListenerState::ShuttingDown,
        state.after(event) == ListenerState::Serving ==> state == ListenerState::Serving || (state
            == ListenerState::EnteredLooper && event == ListenerEvent::Flushed),
        state.after(event) == ListenerState::EnteredLooper ==> state
            == ListenerState::EnteredLooper || (state == ListenerState::Init && event
            == ListenerEvent::LooperEntered),
{
}

/// What a listening service implements: the handling of one request.
pub trait BinderService {
    /// Handle the request `code` with the payload `data`, whose cursor
    /// stands after the interface token, and return the reply.
    fn process_request(&self, code: u32, data: &mut Parcel) -> Parcel;
}

/// What an inbound transaction asks of a listener.
pub enum Request {
    /// A user call: the payload is to be handed to the service.
    Call,
    /// The question for the interface name.
    Interface,
    /// Nothing that the listener answers.
    Ignore,
}

/// What the transaction `code` with the payload `p` asks of the listener
/// for `interface`: a code in the range of user calls is a call if the
/// payload opens with the interface token of `interface`, and an error if
/// it opens with another or with none; the code of the interface question
/// is that question; every other code is ignored. In each case but the
/// last the flag word must hold defined flags only.
pub open spec fn request(code: u32, flags: u32, p: ParcelView, interface: Seq<char>) -> Result<
    Request,
    Error,
> {
    if Transaction::FirstCall.code_spec() <= code <= Transaction::LastCall.code_spec() {
        match parse_token(p) {
            Ok((name, _)) => if name == interface && flags <= TF_ALL {
                Ok(Request::Call)
            } else {
                Err(Error::DeserializationError)
            },
            Err(e) => Err(e),
        }
    } else if code == Transaction::Interface.code_spec() {
        if flags <= TF_ALL {
            Ok(Request::Interface)
        } else {
            Err(Error::DeserializationError)
        }
    } else {
        Ok(Request::Ignore)
    }
}

/// The reply to the question for the interface name: a status of zero and
/// the name as a UTF-16 string.
pub open spec fn interface_reply(interface: Seq<char>) -> Seq<u8> {
    le32(0) + str16_wire(interface)
}

/// A service that listens for transactions: the delegate that handles
/// requests, the name of the service, and the name of its interface.
pub struct ServiceListener<'a, BS: BinderService> {
    service_delegate: &'a BS,
    name: String,
    interface_name: String,
}

impl<'a, BS: BinderService> ServiceListener<'a, BS> {
    /// A listener for the service `name` with interface `interface_name`,
    /// whose requests `service_delegate` handles.
    pub fn new(service_delegate: &'a BS, name: &str, interface_name: &str) -> (listener:
        ServiceListener<'a, BS>)
        ensures
            listener.interface_spec() == interface_name@,
    {
        ServiceListener {
            service_delegate,
            name: name.to_owned(),
            interface_name: interface_name.to_owned(),
        }
    }

    /// The name of the interface of the service.
    pub closed spec fn interface_spec(&self) -> Seq<char> {
        self.interface_name@
    }

    /// Tell what an inbound transaction asks: see [`request`]. For a call
    /// the cursor of `parcel` then stands after the interface token;
    /// otherwise the parcel is as before.
    pub fn classify(&self, transaction: &BinderTransactionData, parcel: &mut Parcel) -> (r: Result<
        Request,
        Error,
    >)
        ensures
            r == request(
                transaction.code,
                transaction.flags,
                old(parcel)@,
                self.interface_spec(),
            ),
            r matches Ok(Request::Call) ==> final(parcel)@ == old(parcel)@.at(
                parse_token(old(parcel)@)->Ok_0.1,
            ),
            !(r matches Ok(Request::Call)) ==> final(parcel)@ == old(parcel)@,
    {
        let code: u32 = transaction.code;
        if Transaction::is_user_call(code) {
            let before: u64 = parcel.position();
            let name = match parcel.read_interface_token() {
                Ok(name) => name,
                Err(e) => {
                    return Err(e);
                },
            };
            if name == self.interface_name && transaction.flags <= TF_ALL {
                Ok(Request::Call)
            } else {
                parcel.set_position(before);
                Err(Error::DeserializationError)
            }
        } else if code == Transaction::Interface.code() {
            if transaction.flags <= TF_ALL {
                Ok(Request::Interface)
            } else {
                Err(Error::DeserializationError)
            }
        } else {
            Ok(Request::Ignore)
        }
    }

    /// The reply to the question for the interface name, and the flags it
    /// goes out with: those of the question, with "accept file descriptors"
    /// added. A name too long for a buffer is an i/o error.
    pub fn interface_answer(&self, flags: TransactionFlags) -> (r: Result<
        (Parcel, TransactionFlags),
        Error,
    >)
        ensures
            match r {
                Ok(reply) => interface_reply(self.interface_spec()).len() <= usize::MAX
                    && reply.0@ == ParcelView::empty().put(interface_reply(self.interface_spec()))
                    && reply.1.bits == flags.bits | TF_ACCEPT_FDS,
                Err(e) => interface_reply(self.interface_spec()).len() > usize::MAX && e
                    == Error::StdioError,
            },
    {
        let mut parcel = Parcel::empty();
        proof {
            lemma_put_put(parcel@, le32(0), str16_wire(self.interface_spec()));
        }
        match parcel.write_u32(0) {
            Ok(()) => {},
            Err(e) => {
                return Err(e);
            },
        }
        match parcel.write_str16(self.interface_name.as_str()) {
            Ok(()) => Ok((parcel, TransactionFlags { bits: flags.bits | TF_ACCEPT_FDS })),
            Err(e) => Err(e),
        }
    }

    /// The reply to a call and the flags it goes out with: what the
    /// delegate returned, with the flags of the call.
    pub fn call_answer(reply: Parcel, transaction: &BinderTransactionData) -> (r: (
        Parcel,
        TransactionFlags,
    ))
        requires
            transaction.flags <= TF_ALL,
        ensures
            r.0 == reply,
            r.1.bits == transaction.flags,
    {
        (reply, transaction.flags())
    }

    /// One round of serving: decide what the inbound transaction asks, and
    /// produce the reply and its flags, if there is one to send.
    ///
    /// A call is handed to the delegate, and whatever it returns goes out
    /// with the flags of the call. The question for the interface name is
    /// answered by the listener itself. Anything else gets no reply.
    pub fn dispatch(&self, transaction: &BinderTransactionData, parcel: &mut Parcel) -> (r: Result<
        Option<(Parcel, TransactionFlags)>,
        Error,
    >)
        ensures
            match request(
                transaction.code,
                transaction.flags,
                old(parcel)@,
                self.interface_spec(),
            ) {
                Ok(Request::Call) => r matches Ok(Some(reply)) && reply.1.bits
                    == transaction.flags,
                Ok(Request::Interface) => final(parcel)@ == old(parcel)@ && (
                if interface_reply(self.interface_spec()).len() <= usize::MAX {
                    r matches Ok(Some(reply)) && reply.0@ == ParcelView::empty().put(
                        interface_reply(self.interface_spec()),
                    ) && reply.1.bits == transaction.flags | TF_ACCEPT_FDS
                } else {
                    r matches Err(error) && error == Error::StdioError
                }),
                Ok(Request::Ignore) => r matches Ok(None) && final(parcel)@ == old(parcel)@,
                Err(e) => r matches Err(error) && error == e && final(parcel)@ == old(parcel)@,
            },
    {
        match self.classify(transaction, parcel) {
            Ok(Request::Call) => {
                let reply = self.service_delegate.process_request(transaction.code, parcel);
                Ok(Some(Self::call_answer(reply, transaction)))
            },
            Ok(Request::Interface) => match self.interface_answer(transaction.flags()) {
                Ok(reply) => Ok(Some(reply)),
                Err(e) => Err(e),
            },
            Ok(Request::Ignore) => Ok(None),
            Err(e) => Err(e),
        }
    }
}

/// The parcel that asks the service manager for the service `service_name`:
/// the interface token of the service manager, then the name.
pub open spec fn get_service_wire(service_name: Seq<char>) -> Seq<u8> {
    token_wire(SERVICE_MANAGER_INTERFACE_TOKEN@) + str16_wire(service_name)
}

/// The parcel that registers a service with the service manager: the
/// interface token of the service manager, the name, the binder object of
/// the service, whether isolated processes may reach it, and its dump priority.
pub open spec fn add_service_frame(
    name: Seq<char>,
    object: usize,
    allow_isolated: bool,
    dump_priority: u32,
) -> Frame {
    Frame::plain(token_wire(SERVICE_MANAGER_INTERFACE_TOKEN@) + str16_wire(name)).join(
        Frame::object(
            flat_object_wire(
                BinderFlatObject {
                    binder_type: BinderType::Binder,
                    flags: 0,
                    handle: object,
                    cookie: 0,
                    stability: STABILITY_SYSTEM,
                },
            ),
        ),
    ).join(
        Frame::plain(
            le32(
                if allow_isolated {
                    1u32
                } else {
                    0u32
                },
            ) + le32(dump_priority),
        ),
    )
}

/// What the reply to the question for a service gives: the handle of the
/// service, or the error. The reply is a status word that is stepped over,
/// and a flat object whose handle word is the handle.
pub open spec fn get_service_handle(p: ParcelView) -> Result<i32, Error> {
    if !p.has(4) {
        Err(Error::DeserializationError)
    } else {
        match BinderFlatObject::parse(p.skip(4)) {
            Ok((object, _)) => Ok(object.handle as i32),
            Err(e) => Err(e),
        }
    }
}

/// The client of the service manager, which owns the client of the driver.
pub struct ServiceManager {
    binder: Binder,
}

impl ServiceManager {
    /// A service manager client over a driver client with nothing queued.
    pub fn new() -> (manager: ServiceManager)
        ensures
            manager.pending() == Seq::<u8>::empty(),
    {
        ServiceManager { binder: Binder::new() }
    }

    /// The bytes of the commands that wait for the next flush.
    pub closed spec fn pending(&self) -> Seq<u8> {
        self.binder.pending()
    }

    /// The client of the driver.
    pub fn binder(&mut self) -> (binder: &mut Binder)
        ensures
            binder.pending() == old(self).pending(),
            final(self).pending() == final(binder).pending(),
    {
        &mut self.binder
    }

    /// The payload of the ping that checks that the driver delivers: none.
    pub fn ping_request() -> (parcel: Parcel)
        ensures
            parcel@ == ParcelView::empty(),
    {
        Parcel::empty()
    }

    /// The parcel that asks for the service `service_name`. A name too
    /// long for a buffer is an i/o error.
    pub fn get_service_request(service_name: &str) -> (r: Result<Parcel, Error>)
        ensures
            built(r, Frame::plain(get_service_wire(service_name@))),
    {
        let mut parcel = Parcel::empty();
        proof {
            lemma_put_put(
                parcel@,
                token_wire(SERVICE_MANAGER_INTERFACE_TOKEN@),
                str16_wire(service_name@),
            );
            lemma_put_frame_plain(parcel@, get_service_wire(service_name@));
        }
        match parcel.write_interface_token(SERVICE_MANAGER_INTERFACE_TOKEN) {
            Ok(()) => {},
            Err(e) => {
                return Err(e);
            },
        }
        match parcel.write_str16(service_name) {
            Ok(()) => Ok(parcel),
            Err(e) => Err(e),
        }
    }

    /// Read the reply to the question for a service, and queue the
    /// commands that count a reference to its handle and acquire it. Where
    /// the reply cannot be read, or the queue has no room for the two
    /// commands, nothing changes.
    pub fn get_service_reply(
        &mut self,
        parcel: &mut Parcel,
        service_name: &str,
        interface_name: &str,
    ) -> (r: Result<Service, Error>)
        ensures
            match get_service_handle(old(parcel)@) {
                Ok(handle) => if old(self).pending().len() + 16 <= usize::MAX {
                    r matches Ok(service) && service.handle_spec() == handle
                        && service.name_spec() == service_name@ && service.interface_spec()
                        == interface_name@ && final(self).pending() == old(self).pending()
                        + handle_command(BinderDriverCommandProtocol::IncRefs, handle)
                        + handle_command(BinderDriverCommandProtocol::Acquire, handle) && final(parcel)@ == old(parcel)@.skip(32)
                } else {
                    r matches Err(e) && e == Error::StdioError && final(self).pending() == old(self).pending() && final(parcel)@ == old(parcel)@
                },
                Err(error) => r matches Err(e) && e == error && final(self).pending() == old(self).pending() && final(parcel)@ == old(parcel)@,
            },
    {
        let before: u64 = parcel.position();
        match parcel.read_u32() {
            Ok(_) => {},
            Err(e) => {
                return Err(e);
            },
        }
        let object = match BinderFlatObject::deserialize(parcel) {
            Ok(object) => object,
            Err(e) => {
                parcel.set_position(before);
                return Err(e);
            },
        };
        if self.binder.pending_len() > usize::MAX - 16 {
            parcel.set_position(before);
            return Err(Error::StdioError);
        }
        let handle: i32 = #[verifier::truncate] (object.handle as i32);
        let _ = self.binder.add_ref(handle);
        let _ = self.binder.acquire(handle);
        Ok(Service::new(service_name, interface_name, handle))
    }

    /// Queue the commands that give a service up: its handle is released,
    /// and the reference to it is counted down. Where the queue has no room
    /// for the two commands, nothing changes.
    pub fn release_service(&mut self, service: &Service) -> (r: Result<(), Error>)
        ensures
            if old(self).pending().len() + 16 <= usize::MAX {
                r is Ok && final(self).pending() == old(self).pending() + handle_command(
                    BinderDriverCommandProtocol::Release,
                    service.handle_spec(),
                ) + handle_command(BinderDriverCommandProtocol::DecRefs, service.handle_spec())
            } else {
                r == Err::<(), Error>(Error::StdioError) && final(self).pending() == old(self).pending()
            },
    {
        if self.binder.pending_len() > usize::MAX - 16 {
            return Err(Error::StdioError);
        }
        let _ = self.binder.release(service.handle());
        let _ = self.binder.dec_ref(service.handle());
        Ok(())
    }

    /// The parcel that registers the service `name`, whose local object
    /// lies at address `object`. A name too long for a buffer is an i/o error.
    pub fn register_service_request(
        name: &str,
        object: usize,
        allow_isolated: bool,
        dump_priority: u32,
    ) -> (r: Result<Parcel, Error>)
        ensures
            built(r, add_service_frame(name@, object, allow_isolated, dump_priority)),
    {
        let ghost token = token_wire(SERVICE_MANAGER_INTERFACE_TOKEN@);
        let ghost head = Frame::plain(token + str16_wire(name@));
        let ghost object_frame = Frame::object(
            flat_object_wire(
                BinderFlatObject {
                    binder_type: BinderType::Binder,
                    flags: 0,
                    handle: object,
                    cookie: 0,
                    stability: STABILITY_SYSTEM,
                },
            ),
        );
        let ghost flag = le32(if allow_isolated { 1u32 } else { 0u32 });
        let ghost tail = Frame::plain(flag + le32(dump_priority));
        let ghost start = ParcelView::empty();
        let mut parcel = Parcel::empty();
        proof {
            lemma_put_put(start, token, str16_wire(name@));
            lemma_put_frame_plain(start, head.bytes);
            lemma_put_frame_join(start, head, object_frame);
            lemma_put_put(start.put_frame(head.join(object_frame)), flag, le32(dump_priority));
            lemma_put_frame_plain(start.put_frame(head.join(object_frame)), tail.bytes);
            lemma_put_frame_join(start, head.join(object_frame), tail);
        }
        match parcel.write_interface_token(SERVICE_MANAGER_INTERFACE_TOKEN) {
            Ok(()) => {},
            Err(e) => {
                return Err(e);
            },
        }
        match parcel.write_str16(name) {
            Ok(()) => {},
            Err(e) => {
                return Err(e);
            },
        }
        assert(parcel@ == start.put_frame(head));
        match parcel.write_binder(object) {
            Ok(()) => {},
            Err(e) => {
                return Err(e);
            },
        }
        assert(parcel@ == start.put_frame(head.join(object_frame)));
        match parcel.write_bool(allow_isolated) {
            Ok(()) => {},
            Err(e) => {
                return Err(e);
            },
        }
        match parcel.write_u32(dump_priority) {
            Ok(()) => Ok(parcel),
            Err(e) => Err(e),
        }
    }
}

} // verus!
