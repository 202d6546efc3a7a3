//! The data model of the language-bridge surface: the mirror of the hub's
//! notifications handed to the hosting application. The bridge layer itself
//! (callback registration in a host runtime) lives outside the library; the
//! conversions here are its only logic.

use vstd::prelude::*;

verus! {

use crate::hub::Message;
use crate::hub::MessageType;

/// A hub notification as the hosting application sees it.
#[derive(Debug)]
pub struct IpcMessage {
    pub client_id: u32,
    pub kind: IpcMessageType,
    pub message: String,
}

/// The kind of an [`IpcMessage`].
#[derive(Debug, Clone, Copy, PartialEq, Eq, Structural)]
pub enum IpcMessageType {
    Connected,
    Disconnected,
    Message,
}

impl From<MessageType> for IpcMessageType {
    fn from(message_type: MessageType) -> (r: Self) {
        match message_type {
            MessageType::Connected => IpcMessageType::Connected,
            MessageType::Disconnected => IpcMessageType::Disconnected,
            MessageType::Message => IpcMessageType::Message,
        }
    }
}

impl vstd::std_specs::convert::FromSpecImpl<MessageType> for IpcMessageType {
    open spec fn obeys_from_spec() -> bool {
        true
    }

    open spec fn from_spec(message_type: MessageType) -> Self {
        match message_type {
            MessageType::Connected => IpcMessageType::Connected,
            MessageType::Disconnected => IpcMessageType::Disconnected,
            MessageType::Message => IpcMessageType::Message,
        }
    }
}

impl From<Message> for IpcMessage {
    fn from(message: Message) -> (r: Self) {
        IpcMessage {
            client_id: message.client_id,
            kind: IpcMessageType::from(message.kind),
            message: message.message,
        }
    }
}

impl vstd::std_specs::convert::FromSpecImpl<Message> for IpcMessage {
    open spec fn obeys_from_spec() -> bool {
        true
    }

    open spec fn from_spec(message: Message) -> Self {
        IpcMessage {
            client_id: message.client_id,
            kind: <IpcMessageType as vstd::std_specs::convert::FromSpec<MessageType>>::from_spec(
                message.kind,
            ),
            message: message.message,
        }
    }
}

} // verus!
