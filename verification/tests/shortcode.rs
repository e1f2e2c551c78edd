use fedilinks::{fedilink_key, short_code_from_bytes, store_key, ALPHANUMERIC};

#[test]
fn short_code_maps_each_byte_modulo_the_alphabet() {
    assert_eq!(short_code_from_bytes(&[0, 1, 25, 26, 61, 62, 255, 100]), "ABZa9AHm");
    assert_eq!(short_code_from_bytes(&[]), "");
    assert_eq!(short_code_from_bytes(&[52, 53, 124]), "01A");
}

#[test]
fn short_code_is_alphanumeric_for_every_byte() {
    let all: Vec<u8> = (0..=255u8).collect();
    let code = short_code_from_bytes(&all);
    assert_eq!(code.chars().count(), 256);
    assert!(code.chars().all(|c| c.is_ascii_alphanumeric()));
    assert_eq!(ALPHANUMERIC.len(), 62);
}

#[test]
fn key_is_platform_slash_code() {
    assert_eq!(fedilink_key("lemmy", &[0u8; 8]), "lemmy/AAAAAAAA");
    assert_eq!(fedilink_key("pixelfed", &[9u8, 35, 61]), "pixelfed/Jj9");
    assert_eq!(fedilink_key("mastodon", &[200u8; 8]).len(), "mastodon".len() + 1 + 8);
}

#[test]
fn store_key_is_the_fedilink_url() {
    assert_eq!(store_key("lemmy", "ABZa9AHm"), "http://fedilinks.net/lemmy/ABZa9AHm");
    assert_eq!(store_key("", ""), "http://fedilinks.net//");
}
