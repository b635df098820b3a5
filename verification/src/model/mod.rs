pub mod audio_buffer;
pub mod audio_slice;
pub mod call_attendees;
pub mod constants;
pub mod transcript;
pub mod types;
pub mod voice_activity;
