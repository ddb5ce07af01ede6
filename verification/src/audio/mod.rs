pub mod tone_generator;
pub mod audio_devices;
