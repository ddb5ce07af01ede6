pub mod observable_buffer;
pub mod buffer_pool;
