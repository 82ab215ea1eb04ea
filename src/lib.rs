pub mod address;
pub mod crypto;
pub mod get_public_key;
pub mod path;
pub mod status;
