use vstd::prelude::*;

use crate::constants::{ALPHANUMERIC, FEDILINK_BASE_URL, VALID_FEDILINK_PLATFORMS};

verus! {

/// The short-code symbol that a random byte stands for: the byte taken modulo
/// the size of the alphabet, used as an index into it.
pub open spec fn alphanumeric_char(b: u8) -> char {
    ALPHANUMERIC@[(b as int) % (ALPHANUMERIC@.len() as int)]
}

/// The short code drawn from `bytes`: one symbol per byte.
pub open spec fn spec_short_code(bytes: Seq<u8>) -> Seq<char> {
    Seq::new(bytes.len(), |i: int| alphanumeric_char(bytes[i]))
}

/// An ASCII letter or digit.
pub open spec fn is_ascii_alphanumeric(c: char) -> bool {
    ('A' <= c && c <= 'Z') || ('a' <= c && c <= 'z') || ('0' <= c && c <= '9')
}

/// `std`'s `String::push`: appends one character.
#[verifier::external_body]
fn string_push(s: &mut String, c: char)
    ensures
        final(s)@ == old(s)@.push(c),
{
    s.push(c);
}

/// Maps random bytes to a short code, one alphanumeric symbol per byte.
pub fn short_code_from_bytes(bytes: &[u8]) -> (code: String)
    ensures
        code@ == spec_short_code(bytes@),
        code@.len() == bytes@.len(),
        forall|i: int| 0 <= i < bytes@.len() ==> #[trigger] code@[i] == ALPHANUMERIC@[bytes@[i] as int % 62],
{
    let mut code = String::new();
    let n = bytes.len();
    for i in 0..n
        invariant
            n == bytes@.len(),
            code@ =~= spec_short_code(bytes@.take(i as int)),
    {
        let b = bytes[i];
        let c = ALPHANUMERIC[(b as usize) % ALPHANUMERIC.len()];
        string_push(&mut code, c);
        assert(spec_short_code(bytes@.take(i + 1)) =~= spec_short_code(bytes@.take(i as int)).push(c));
    }
    assert(bytes@.take(n as int) =~= bytes@);
    code
}

/// The map key of a fedilink: the platform, a slash, then the short code drawn
/// from `random`.
pub open spec fn spec_fedilink_key(platform: Seq<char>, random: Seq<u8>) -> Seq<char> {
    platform + seq!['/'] + spec_short_code(random)
}

/// Builds the map key `platform/CODE`, where `CODE` is the short code drawn
/// from `random`.
pub fn fedilink_key(platform: &str, random: &[u8]) -> (key: String)
    ensures
        key@ == spec_fedilink_key(platform@, random@),
{
    let mut key = platform.to_owned();
    string_push(&mut key, '/');
    let code = short_code_from_bytes(random);
    key.append(code.as_str());
    key
}

/// The key under which the worker's key-value store keeps a fedilink: the
/// fedilink URL `FEDILINK_BASE_URL` + `platform/CODE`.
pub fn store_key(platform: &str, short_code: &str) -> (key: String)
    ensures
        key@ == FEDILINK_BASE_URL@ + platform@ + seq!['/'] + short_code@,
{
    let mut key = FEDILINK_BASE_URL.to_owned();
    key.append(platform);
    string_push(&mut key, '/');
    key.append(short_code);
    key
}

/// Whether `path` begins with a slash.
pub open spec fn is_rooted(path: Seq<char>) -> bool {
    path.len() > 0 && path[0] == '/'
}

/// Tells whether `path` begins with a slash.
pub fn starts_with_slash(path: &str) -> (b: bool)
    ensures
        b == is_rooted(path@),
{
    path.unicode_len() > 0 && path.get_char(0) == '/'
}

/// `path` without its leading slash.
pub fn strip_leading_slash(path: &str) -> (rest: &str)
    requires
        is_rooted(path@),
    ensures
        rest@ == path@.drop_first(),
{
    let n = path.unicode_len();
    path.substring_char(1, n)
}

/// Tells whether two texts are the same.
pub fn same_text(a: &str, b: &str) -> (eq: bool)
    ensures
        eq == (a@ == b@),
{
    let n = a.unicode_len();
    if n != b.unicode_len() {
        return false;
    }
    for i in 0..n
        invariant
            n == a@.len(),
            n == b@.len(),
            forall|j: int| 0 <= j < i ==> a@[j] == b@[j],
    {
        if a.get_char(i) != b.get_char(i) {
            return false;
        }
    }
    assert(a@ =~= b@);
    true
}

/// A platform that fedilinks may be made for: one of `VALID_FEDILINK_PLATFORMS`.
pub open spec fn is_valid_platform(platform: Seq<char>) -> bool {
    exists|i: int| 0 <= i < VALID_FEDILINK_PLATFORMS@.len() && #[trigger] VALID_FEDILINK_PLATFORMS@[i]@ == platform
}

/// Tells whether `platform` is one of `VALID_FEDILINK_PLATFORMS`.
pub fn is_valid_platform_name(platform: &str) -> (ok: bool)
    ensures
        ok == is_valid_platform(platform@),
{
    let n = VALID_FEDILINK_PLATFORMS.len();
    for i in 0..n
        invariant
            n == VALID_FEDILINK_PLATFORMS@.len(),
            forall|j: int| 0 <= j < i ==> VALID_FEDILINK_PLATFORMS@[j]@ != platform@,
    {
        if same_text(VALID_FEDILINK_PLATFORMS[i], platform) {
            return true;
        }
    }
    false
}

/// A path of non-empty segments of ASCII letters and digits, separated by
/// single slashes, with no slash at either end: text that the url crate
/// neither percent-encodes nor normalises when it is set as a path.
pub open spec fn is_plain_path(p: Seq<char>) -> bool {
    &&& p.len() > 0
    &&& p[0] != '/'
    &&& p[p.len() - 1] != '/'
    &&& forall|i: int| 0 <= i < p.len() ==> is_ascii_alphanumeric(#[trigger] p[i]) || p[i] == '/'
    &&& forall|i: int, j: int|
        0 <= i && j == i + 1 && j < p.len() && #[trigger] p[i] == '/' ==> #[trigger] p[j] != '/'
}

/// A key made for a plain platform from at least one random byte is a plain
/// path.
pub proof fn lemma_key_is_plain(platform: Seq<char>, random: Seq<u8>)
    requires
        is_plain_path(platform),
        random.len() > 0,
    ensures
        is_plain_path(spec_fedilink_key(platform, random)),
{
    let key = spec_fedilink_key(platform, random);
    let n: int = platform.len() as int;
    assert(key[n] == '/');
    assert forall|i: int| 0 <= i < key.len() implies is_ascii_alphanumeric(#[trigger] key[i]) || key[i] == '/' by {
        if i > n {
            lemma_alphabet_is_alphanumeric(random[i - n - 1]);
        } else if i < n {
            assert(key[i] == platform[i]);
        }
    }
    assert forall|i: int, j: int|
        0 <= i && j == i + 1 && j < key.len() && #[trigger] key[i] == '/' implies #[trigger] key[j] != '/' by {
        if j > n {
            lemma_alphabet_is_alphanumeric(random[j - n - 1]);
        } else if j == n {
            assert(key[i] == platform[n - 1]);
        } else {
            assert(key[i] == platform[i]);
            assert(key[j] == platform[j]);
        }
    }
    lemma_alphabet_is_alphanumeric(random[random.len() - 1]);
}

/// Each platform that fedilinks are made for is a plain path of at most
/// eight characters.
pub proof fn lemma_valid_platform_is_plain(platform: Seq<char>)
    requires
        is_valid_platform(platform),
    ensures
        is_plain_path(platform),
        platform.len() <= 8,
{
    reveal_strlit("lemmy");
    reveal_strlit("pixelfed");
    reveal_strlit("mastodon");
    assert(VALID_FEDILINK_PLATFORMS@[0]@ == "lemmy"@);
    assert(VALID_FEDILINK_PLATFORMS@[1]@ == "pixelfed"@);
    assert(VALID_FEDILINK_PLATFORMS@[2]@ == "mastodon"@);
    let i = choose|i: int| 0 <= i < VALID_FEDILINK_PLATFORMS@.len() && #[trigger] VALID_FEDILINK_PLATFORMS@[i]@ == platform;
    assert forall|k: int| 0 <= k < platform.len() implies is_ascii_alphanumeric(#[trigger] platform[k]) by {
        if i == 0 {
            assert(platform =~= seq!['l', 'e', 'm', 'm', 'y']);
        } else if i == 1 {
            assert(platform =~= seq!['p', 'i', 'x', 'e', 'l', 'f', 'e', 'd']);
        } else {
            assert(platform =~= seq!['m', 'a', 's', 't', 'o', 'd', 'o', 'n']);
        }
    }
}

/// The alphabet holds the upper case letters `A`..`Z`, then the lower case
/// letters `a`..`z`, then the digits `0`..`9`, each in order.
pub proof fn law_alphabet_order()
    ensures
        ALPHANUMERIC@.len() == 62,
        forall|i: int| 0 <= i < 26 ==> #[trigger] ALPHANUMERIC@[i] as int == 'A' as int + i,
        forall|i: int| 26 <= i < 52 ==> #[trigger] ALPHANUMERIC@[i] as int == 'a' as int + (i - 26),
        forall|i: int| 52 <= i < 62 ==> #[trigger] ALPHANUMERIC@[i] as int == '0' as int + (i - 52),
{
}

/// A short code has one symbol per random byte, and the symbol for a byte is
/// the one at the byte's value modulo 62 in the alphabet.
pub proof fn law_short_code_symbols(bytes: Seq<u8>)
    ensures
        spec_short_code(bytes).len() == bytes.len(),
        forall|i: int| 0 <= i < bytes.len() ==> #[trigger] spec_short_code(bytes)[i] == ALPHANUMERIC@[bytes[i] as int % 62],
{
}

/// Every symbol of the short-code alphabet is an ASCII letter or digit.
pub proof fn lemma_alphabet_is_alphanumeric(b: u8)
    ensures
        is_ascii_alphanumeric(alphanumeric_char(b)),
{
}

/// A fedilink key is the platform, a slash, and one ASCII letter or digit per
/// random byte; so keys made for one platform from equally many bytes all have
/// the same length.
pub proof fn law_fedilink_key_shape(platform: Seq<char>, random: Seq<u8>)
    ensures
        spec_fedilink_key(platform, random).len() == platform.len() + 1 + random.len(),
        spec_fedilink_key(platform, random).subrange(0, platform.len() as int) == platform,
        spec_fedilink_key(platform, random)[platform.len() as int] == '/',
        forall|i: int|
            0 <= i < random.len() ==> is_ascii_alphanumeric(
                #[trigger] spec_fedilink_key(platform, random)[platform.len() + 1 + i],
            ),
{
    let key = spec_fedilink_key(platform, random);
    assert(key.subrange(0, platform.len() as int) =~= platform);
    assert forall|i: int| 0 <= i < random.len() implies is_ascii_alphanumeric(
        #[trigger] key[platform.len() + 1 + i],
    ) by {
        assert(key[platform.len() + 1 + i] == alphanumeric_char(random[i]));
        lemma_alphabet_is_alphanumeric(random[i]);
    }
}

} // verus!
