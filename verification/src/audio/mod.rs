pub mod audio_buffer;
pub mod events;
pub mod resample;
pub mod speaker;
pub mod whisper;
