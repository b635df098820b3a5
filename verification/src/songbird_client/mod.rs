pub mod voice_activity;
