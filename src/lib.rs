//! Client side of a terminal-session multiplexer's wire protocol: the
//! messages exchanged with the daemon, the framing of the output stream and
//! the decisions of the attach relay.

mod tty;
mod protocol;

pub use tty::Size;
pub use protocol::{
    AttachHeader, AttachReplyHeader, AttachStatus, ConnectHeader, DetachReply, DetachRequest,
    KillReply, KillRequest, ListReply, LocalCommandSetMetadataReply,
    LocalCommandSetMetadataStatus, ResizeReply, ResizeRequest, Session,
    SessionMessageDetachReply, SessionMessageReply, SessionMessageRequest,
    SessionMessageRequestPayload,
};

mod chunk;

pub use chunk::{payload_len, Chunk, ChunkError, ChunkKind, HEADER_LEN};

mod stream;

pub use stream::{decode_all, relay_output};

mod relay;

pub use relay::{supervise, Pump, PumpAction, BUF_SIZE, JOIN_POLL_MILLIS, PIPE_POLL_MILLIS};

mod conn;

pub use conn::{frame_connect_header, ConnEvent, ConnState, ProtocolViolation};
