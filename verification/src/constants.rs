use vstd::prelude::*;

verus! {

/// Number of random characters in a fedilink short code.
pub const FEDILINK_SHORT_CODE_LENGTH: usize = 8;

/// How many short codes `create_fedilink_url` draws before it gives up on
/// finding one that is not taken.
pub const FEDILINK_MAX_DRAWS: usize = 4;

/// The alphabet that short-code characters are drawn from: upper case letters,
/// lower case letters, then digits.
pub const ALPHANUMERIC: [char; 62] = [
    'A', 'B', 'C', 'D', 'E', 'F', 'G', 'H', 'I', 'J', 'K', 'L', 'M', 'N', 'O',
    'P', 'Q', 'R', 'S', 'T', 'U', 'V', 'W', 'X', 'Y', 'Z', 'a', 'b', 'c', 'd',
    'e', 'f', 'g', 'h', 'i', 'j', 'k', 'l', 'm', 'n', 'o', 'p', 'q', 'r', 's',
    't', 'u', 'v', 'w', 'x', 'y', 'z', '0', '1', '2', '3', '4', '5', '6', '7',
    '8', '9',
];

/// Every fedilink lives under this base URL.
pub const FEDILINK_BASE_URL: &'static str = "http://fedilinks.net/";

/// The platforms a fedilink may be made for.
pub const VALID_FEDILINK_PLATFORMS: [&'static str; 3] = ["lemmy", "pixelfed", "mastodon"];

/// Name of the key-value store that the worker keeps fedilinks in.
pub const KV_STORE_NAME: &'static str = "cities";

/// Lifetime of an entry in the key-value store, in seconds.
pub const KV_STORE_EXPIR_SECONDS: u64 = 864000;

} // verus!
