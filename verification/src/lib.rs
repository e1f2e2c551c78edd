//! Short-link bookkeeping for fedilinks: short codes drawn from random bytes,
//! the map from short codes to the URLs they stand for, and the translation
//! between fedilink URLs and map keys.

pub mod constants;
mod entropy;
pub mod fedilinker;
pub mod shortcode;
pub mod urls;

pub use constants::{
    ALPHANUMERIC, FEDILINK_BASE_URL, FEDILINK_MAX_DRAWS, FEDILINK_SHORT_CODE_LENGTH, KV_STORE_EXPIR_SECONDS,
    KV_STORE_NAME, VALID_FEDILINK_PLATFORMS,
};
pub use fedilinker::{FedilinkError, Fedilinker};
pub use shortcode::{fedilink_key, short_code_from_bytes, store_key};
