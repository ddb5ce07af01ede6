pub mod channel_encoder;
pub mod channel_encoding;
pub mod crc;
pub mod ex_2_5;
pub mod gray;
pub mod ldpc;
pub mod ldpc_util;
