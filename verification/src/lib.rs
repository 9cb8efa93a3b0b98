//! Verified core of a Minecraft mod and Java runtime manager: mod identifiers,
//! Java build names, platform tokens, release selection and download planning.

pub mod text;
pub mod java_name;
pub mod json;
pub mod mods;
pub mod platform;
pub mod releases;
pub mod release_info;
pub mod sort;
pub mod profiles;
pub mod stub_jar;
pub mod layout;
pub mod installs;
pub mod install_steps;
