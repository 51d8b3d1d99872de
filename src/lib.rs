//! Schema validation for a fixed-depth tree of audio test recordings.
//!
//! The tree is read elsewhere into a [`DirNode`] snapshot; this crate decides,
//! level by level, which names and contents are legal and reports every
//! violation in discovery order.

pub mod names;
pub mod report;
pub mod tree;
pub mod validate;

pub use names::{
    channel_type, dynamic_static_tag, is_audio_file_name, seat_position, talk_type, ChannelType,
    DynamicStaticTag, SeatPosition, TalkType,
};
pub use report::{ErrorClass, ErrorKind, ValidationError};
pub use tree::{DirNode, RootCheck, RootEntry};

pub use validate::{check_pcm_files, classify_root, validate_directory_structure};
