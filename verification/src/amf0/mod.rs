//! AMF0, the value encoding of RTMP command and data messages.
pub mod define;
pub mod amf0_reader;
pub mod amf0_writer;
pub mod codec_laws;
