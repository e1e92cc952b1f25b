//! Analysis core for a live packet-capture tool: IPv4 header parsing and
//! fragment reassembly, TCP header and option parsing, per-flow TCP stream
//! state tracking with byte-stream reconstruction, application-protocol
//! classification, and the per-frame pipeline that ties them together.

pub mod ip_header;
pub mod tcp_header;
pub mod protocol_identifier;
pub mod byte_ops;
pub mod tcp_stream;
pub mod stream_table;
pub mod ip_reassembly;
pub mod pipeline;
pub mod port_to_protocol;
pub mod protocol_utils;
pub mod packet_parser;
pub mod app_state;
pub mod capture_control;
pub mod frame_builder;
pub mod sql;
pub mod ui_info;
