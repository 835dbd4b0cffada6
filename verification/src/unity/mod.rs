//! Reading UnityFS archives, their serialized files, and the objects within.

pub mod error;
pub mod reader;
pub mod tree;
pub mod streaming_info;
pub mod texture2d;
pub mod mesh;
pub mod resolve;
pub mod common_str;
pub mod type_tree;
pub mod serialized;
pub mod object;
pub mod compress;
pub mod unity_fs;
pub mod class;
pub mod classes;
