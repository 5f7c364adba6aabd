use vstd::prelude::*;

verus! {

/// Separator between entries of the child shell's PATH variable.
pub const PATH_VAR_SEP: &'static str = ":";

/// Size of the read buffers used on the stream and the terminal.
pub const BUF_SIZE: usize = 16384;

/// Upper bound on the payload carried by one chunk of a request or
/// response; must stay smaller than BUF_SIZE.
pub const COMMAND_PAYLOAD_SIZE: usize = 10240;

/// Bound on the output-history ring replayed after a reconnect.
pub const MAX_MESSAGE_HISTORY_SIZE: usize = 2048;

/// Field separator of the inner request/response wire format.
pub const MESSAGE_PARTS_SEPARATOR: u8 = 47;

/// Backoff, in milliseconds, between attempts to hand terminal output to a
/// closed outbound channel.
pub const WAIT_TIME_RETRY_CNX_MS: u64 = 100;

/// Name of the directory of executables servable by the scripts command.
pub const SCRIPTS_FOLDER_NAME: &'static str = "scripts";

/// Compression level applied to successful response payloads.
pub const RESPONSE_COMPRESSION_LEVEL: i32 = 4;

/// How a response payload is rendered on the client side.
#[derive(Debug, PartialEq, Eq, Structural, Clone, Copy)]
pub enum OutputFormat {
    Json,
    Text,
    Raw,
}

} // verus!
