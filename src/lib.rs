//! Client session core for a publish/subscribe messaging system: field
//! encoding, message building, the wire frame, the logon state machine,
//! outbound sends and inbound delivery to registered subscriptions.
pub mod error;
pub mod field;
pub mod codec;
mod text;
pub mod message;
pub mod registry;
pub mod decimal;
pub mod session;

pub use codec::{decode, encode, EncodedField};
pub use error::AmpsError;
pub use field::{cast, FieldID};
pub use message::{Message, MessageBuilder};
pub use session::{
    get_payload, AmpsClient, ConnectAction, ConnectEvent, Delivery, Diagnostic, RetryPolicy,
    SessionState,
};
