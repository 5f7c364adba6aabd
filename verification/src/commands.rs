//! The chunked request/response protocol and the command machinery around
//! it: wire codec, reassembly, routing, request builders and the pure parts
//! of the client driver.

pub mod command_error;
pub mod command_history;
pub mod command_processor;
pub mod download;
pub mod file_list;
pub mod glob;
pub mod http;
pub mod ls;
pub mod request_or_response;
pub mod resize;
pub mod scripts;
pub mod send_command_handler;
pub mod tcp;
