//! Client and server side building blocks for the Android Binder IPC transport:
//! the parcel wire format, the driver command protocol, and the service layer
//! that sits on top of both.

pub mod binder;
pub mod derive;
pub mod error;
pub mod object;
pub mod parcel;
pub mod parcelable;
pub mod protocol;
pub mod render;
pub mod service;
pub mod transaction;
pub mod utf16;
pub mod wire;

pub use binder::Binder;
pub use derive::{parcelable_derive, Container, Derived};
pub use error::Error;
pub use object::{BinderFd, BinderFlatObject, BinderType};
pub use parcel::Parcel;
pub use parcelable::{Mapping, Parcelable, Sends, String16, Tag};
pub use protocol::{
    BinderDriverCommandProtocol, BinderDriverReturnProtocol, Transaction, TransactionFlags,
};
pub use service::{
    BinderService, CallError, ListenerEvent, ListenerState, Request, Service, ServiceFailure,
    ServiceListener, ServiceManager,
};
pub use transaction::{BinderTransactionData, BinderVersion, BinderWriteRead};
