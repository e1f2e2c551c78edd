use fedilinks::{store_key, Fedilinker, FedilinkError, FEDILINK_BASE_URL, FEDILINK_SHORT_CODE_LENGTH};

// Test that the fedilinker is properly mapping URLs back to their original.
#[test]
fn test_retri_url_from_fedilink_returns_some() {
    let mut fedilinker = Fedilinker::new();
    let original_url = "http://example.com/beans";
    let platform = "lemmy";
    let fedilink_url = fedilinker.create_fedilink_url(original_url, platform).unwrap().to_string();

    // assert that we got an url out of the retri
    assert!(fedilinker.retri_url_from_fedilink(&fedilink_url).is_some());
}

#[test]
fn test_retri_url_from_fedilink_returns_original() {
    let mut fedilinker = Fedilinker::new();
    let original_url = "http://example.com/beans";
    let platform = "lemmy";
    let fedilink_url = fedilinker.create_fedilink_url(original_url, platform).unwrap().to_string();

    // assert that the original_url and what we got out of retri match
    assert_eq!(fedilinker.retri_url_from_fedilink(&fedilink_url).unwrap(), original_url);
}

#[test]
fn test_fedilinker_returns_unique_fedilinks() {
    let mut fedilinker = Fedilinker::new();
    let original_url = "http://example.com/beans";
    let platform = "lemmy";
    let fedilink_url_one = fedilinker.create_fedilink_url(original_url, platform).unwrap().to_string();
    let fedilinker_url_two = fedilinker.create_fedilink_url(original_url, platform).unwrap().to_string();

    // fedilinks should always be unique, regardless of the source url
    assert_ne!(fedilink_url_one, fedilinker_url_two);
}

#[test]
fn test_fedilinker_expected_length() {
    let mut fedilinker = Fedilinker::new();
    let original_url = "http://example.com/beans";
    let platform = "lemmy";
    let fedilink_url_one = fedilinker.create_fedilink_url(original_url, platform).unwrap().to_string();

    // fedilinks are the base url, the platform, a slash and the short code
    let expected_len = FEDILINK_BASE_URL.len() + platform.len() + "/".len() + FEDILINK_SHORT_CODE_LENGTH;
    assert_eq!(fedilink_url_one.len(), expected_len);
}

// Fedilinks are unique, of the expected length, and of a fixed length.
#[test]
fn test_fedilinker_two_unique_urls_are_same_length() {
    let mut fedilinker = Fedilinker::new();
    let original_url = "http://example.com/beans";
    let platform = "lemmy";
    let fedilink_url_one = fedilinker.create_fedilink_url(original_url, platform).unwrap().to_string();
    let fedilinker_url_two = fedilinker.create_fedilink_url(original_url, platform).unwrap().to_string();

    assert_eq!(fedilink_url_one.len(), fedilinker_url_two.len());
}

#[test]
fn test_validate_platform_valid_platform() {
    let fedilinker = Fedilinker::new();
    let platform = "lemmy";
    let fedilink_url = fedilinker.validate_platform(platform);

    assert!(fedilink_url.is_ok());
}

#[test]
fn test_validate_platform_invalid_platform_returns_error() {
    let fedilinker = Fedilinker::new();
    let platform = "aninvalidaplatformchoice";
    let fedilink_url = fedilinker.validate_platform(platform);

    assert!(fedilink_url.is_err());
}

#[test]
fn test_create_fedilink_with_invalid_platform_returns_error() {
    let mut fedilinker = Fedilinker::new();
    let original_url = "http://example.com/beans";
    let platform = "aninvalidplatformchoice";
    let fedilink_url_one = fedilinker.create_fedilink(&original_url.to_string(), &platform.to_string());

    assert!(fedilink_url_one.is_err());
}

#[test]
fn test_create_fedilink_with_valid_platform_returns_ok() {
    let mut fedilinker = Fedilinker::new();
    let original_url = "http://example.com/beans";
    let platform = "lemmy";
    let fedilink_url_one = fedilinker.create_fedilink(&original_url.to_string(), &platform.to_string());

    assert!(fedilink_url_one.is_ok());
}

#[test]
fn test_create_fedilink_with_valid_platform_returns_string() {
    let mut fedilinker = Fedilinker::new();
    let original_url = "http://example.com/beans";
    let platform = "lemmy";
    let fedilink = fedilinker.create_fedilink(&original_url.to_string(), &platform.to_string());

    // the fedilink comes back as an owned `String`
    let fedilink: String = fedilink.unwrap();
    assert!(fedilink.starts_with(FEDILINK_BASE_URL));
}

#[test]
fn new_fedilinker_is_empty() {
    let mut fedilinker = Fedilinker::new();
    assert_eq!(fedilinker.len(), 0);
    assert_eq!(fedilinker.retri_url_from_fedilink("http://fedilinks.net/lemmy/ABCDEFGH"), None);
}

#[test]
fn created_link_from_known_bytes_is_exact() {
    let mut fedilinker = Fedilinker::new();
    let random = [0u8, 1, 25, 26, 61, 62, 255, 100];
    let link = fedilinker
        .create_fedilink_url_from_random("https://example.org/post/7", "mastodon", &random)
        .unwrap();
    assert_eq!(link, "http://fedilinks.net/mastodon/ABZa9AHm");
    assert_eq!(link, store_key("mastodon", "ABZa9AHm"));
    assert_eq!(fedilinker.len(), 1);
    assert_eq!(
        fedilinker.retri_url_from_path("/mastodon/ABZa9AHm").map(|s| s.as_str()),
        Some("https://example.org/post/7")
    );
    assert_eq!(
        fedilinker.retri_url_from_fedilink(&link).map(|s| s.as_str()),
        Some("https://example.org/post/7")
    );
}

#[test]
fn same_bytes_same_platform_is_refused() {
    let mut fedilinker = Fedilinker::new();
    let random = [7u8; 8];
    let first = fedilinker.create_fedilink_url_from_random("https://a.example/", "lemmy", &random).unwrap();
    let second = fedilinker.create_fedilink_url_from_random("https://b.example/", "lemmy", &random);
    assert_eq!(second, Err(FedilinkError::ShortCodeTaken));
    assert_eq!(fedilinker.len(), 1);
    assert_eq!(fedilinker.retri_url_from_fedilink(&first).map(|s| s.as_str()), Some("https://a.example/"));
}

#[test]
fn same_bytes_other_platform_is_a_new_link() {
    let mut fedilinker = Fedilinker::new();
    let random = [7u8; 8];
    let first = fedilinker.create_fedilink_url_from_random("https://a.example/", "lemmy", &random).unwrap();
    let second = fedilinker.create_fedilink_url_from_random("https://b.example/", "mastodon", &random).unwrap();
    assert_ne!(first, second);
    assert_eq!(fedilinker.len(), 2);
}

#[test]
fn many_links_are_all_distinct_and_read_back() {
    let mut fedilinker = Fedilinker::new();
    let mut links = Vec::new();
    for i in 0..200 {
        let original = format!("https://example.com/{}", i);
        let link = fedilinker.create_fedilink(&original, &"pixelfed".to_string()).unwrap();
        links.push((link, original));
    }
    assert_eq!(fedilinker.len(), 200);
    for (i, (link, original)) in links.iter().enumerate() {
        for (other, _) in links.iter().skip(i + 1) {
            assert_ne!(link, other);
        }
        assert_eq!(fedilinker.retri_url_from_fedilink(link), Some(original));
    }
}

#[test]
fn creating_keeps_other_links() {
    let mut fedilinker = Fedilinker::new();
    let a = fedilinker.create_fedilink_url_from_random("https://a.example/", "lemmy", &[1u8; 8]).unwrap();
    let b = fedilinker.create_fedilink_url_from_random("https://b.example/", "pixelfed", &[2u8; 8]).unwrap();
    assert_eq!(a, "http://fedilinks.net/lemmy/BBBBBBBB");
    assert_eq!(b, "http://fedilinks.net/pixelfed/CCCCCCCC");
    assert_eq!(fedilinker.len(), 2);
    assert_eq!(fedilinker.retri_url_from_fedilink(&a).map(|s| s.as_str()), Some("https://a.example/"));
    assert_eq!(fedilinker.retri_url_from_fedilink(&b).map(|s| s.as_str()), Some("https://b.example/"));
}

#[test]
fn invalid_platform_records_nothing() {
    let mut fedilinker = Fedilinker::new();
    let res = fedilinker.create_fedilink(&"https://a.example/".to_string(), &"myspace".to_string());
    assert_eq!(res, Err(FedilinkError::InvalidPlatform));
    assert_eq!(fedilinker.len(), 0);
}

#[test]
fn every_valid_platform_is_accepted() {
    let fedilinker = Fedilinker::new();
    for p in ["lemmy", "pixelfed", "mastodon"] {
        assert_eq!(fedilinker.validate_platform(p), Ok(()));
    }
    for p in ["Lemmy", "lemm", "lemmyx", "", "mastodon "] {
        assert_eq!(fedilinker.validate_platform(p), Err(FedilinkError::InvalidPlatform));
    }
}

#[test]
fn checked_lookup_reports_bad_urls() {
    let mut fedilinker = Fedilinker::new();
    assert_eq!(
        fedilinker.retri_url_from_fedilink_checked("not a url"),
        Err(FedilinkError::UrlParse(url::ParseError::RelativeUrlWithoutBase))
    );
    assert_eq!(fedilinker.retri_url_from_fedilink_checked("mailto:someone@example.com"), Err(FedilinkError::CannotBeABase));
    assert_eq!(fedilinker.retri_url_from_fedilink_checked("http://fedilinks.net/lemmy/ZZZZZZZZ"), Ok(None));
}

#[test]
fn checked_lookup_finds_created_link() {
    let mut fedilinker = Fedilinker::new();
    let link = fedilinker.create_fedilink_url("https://example.com/x", "pixelfed").unwrap();
    assert!(link.starts_with("http://fedilinks.net/pixelfed/"));
    assert_eq!(
        fedilinker.retri_url_from_fedilink_checked(&link).map(|o| o.cloned()),
        Ok(Some("https://example.com/x".to_string()))
    );
}

#[test]
fn lookup_by_path_strips_one_slash() {
    let mut fedilinker = Fedilinker::new();
    fedilinker.create_fedilink_url_from_random("https://example.com/", "lemmy", &[61u8; 8]).unwrap();
    assert_eq!(fedilinker.retri_url_from_path("/lemmy/99999999").map(|s| s.as_str()), Some("https://example.com/"));
    assert_eq!(fedilinker.retri_url_from_path("//lemmy/99999999"), None);
    assert_eq!(fedilinker.retri_url_from_path("/lemmy"), None);
}
