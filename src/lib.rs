//! A broadcast chat service core: session registry, wire events, and the
//! per-connection state machine that decides what each inbound frame causes.

mod laws;
mod protocol;
mod registry;
mod session;
mod username;

pub use laws::{
    distinct_ids, lemma_frame_keeps_registry_open_sessions, lemma_message_echoes_to_all,
    lemma_messages_keep_order, lemma_open_keeps_registry_open_sessions, lemma_remove_twice_announces_once,
    lemma_rename, open_ids,
};
pub use protocol::{
    ChatMessage, ClientBoundPacket, ClientEvent, ClientJoinS2CData, ClientLeaveS2CData,
    ClientTypingS2CData, MessageC2SData, MessageS2CData, ProtocolEvent, ServerBoundPacket,
    SetUsernameC2SData,
};
pub use registry::{reaches_exactly, remove_outcome, Broadcast, ChatClient, ChatServer, RegistryError};
pub use session::{
    closes_silently, closes_with_leave, frame_outcome, is_delivery, is_persist, open_outcome,
    Action, Frame, Session, SessionState,
};
pub use username::{
    ascii_upper, ascii_upper_seq, byte_len, create_random_username, is_ascii_alphanumeric,
    is_generated_username, is_upper_alphanumeric, lemma_generated_is_valid, username_from_sample,
    valid_username, MAX_USERNAME_BYTES, RANDOM_SUFFIX_LEN,
};
