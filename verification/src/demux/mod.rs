pub mod audio_object_type;
pub mod channel_config;
pub mod fragment;
pub mod header;
pub mod init;
pub mod layout;
pub mod metadata;
pub mod sample;
pub mod sampling_frequence_index;
pub mod track;
