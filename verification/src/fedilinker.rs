use vstd::hash_map::StringHashMap;
use vstd::prelude::*;

use crate::constants::{ALPHANUMERIC, FEDILINK_BASE_URL, FEDILINK_MAX_DRAWS, FEDILINK_SHORT_CODE_LENGTH};
use crate::entropy::{random_bytes, RandomSource};
use crate::shortcode::{
    fedilink_key, is_plain_path, is_rooted, is_valid_platform, is_valid_platform_name, lemma_key_is_plain,
    lemma_valid_platform_is_plain, spec_fedilink_key, starts_with_slash, strip_leading_slash,
};
use crate::urls::{
    has_rooted_path, parsed_url_path, url_after_set_path, url_path_of, url_with_path, MAX_URL_PATH_CHARS,
};

verus! {

/// Why a fedilink could not be made or read.
#[derive(Debug, Clone, Copy, PartialEq, Eq)]
pub enum FedilinkError {
    /// The platform is not one of `VALID_FEDILINK_PLATFORMS`.
    InvalidPlatform,
    /// The system source of random bytes failed.
    RandomUnavailable(getrandom::Error),
    /// The url crate refused a URL.
    UrlParse(url::ParseError),
    /// The URL parsed, but its path does not begin with a slash
    /// (a cannot-be-a-base URL such as `mailto:...`).
    CannotBeABase,
    /// The short code drawn names a fedilink that already exists; the
    /// existing fedilink is kept.
    ShortCodeTaken,
}

/// Keeps, for each fedilink made, the original URL it stands for, keyed by
/// `platform/CODE`.
pub struct Fedilinker {
    url_map: StringHashMap<String>,
    source: RandomSource,
}

impl View for Fedilinker {
    type V = Map<Seq<char>, Seq<char>>;

    closed spec fn view(&self) -> Map<Seq<char>, Seq<char>> {
        self.url_map@.map_values(|v: String| v@)
    }
}

/// `after` is `before` with more draws appended.
pub open spec fn extends(before: Seq<Seq<u8>>, after: Seq<Seq<u8>>) -> bool {
    before.len() <= after.len() && after.subrange(0, before.len() as int) == before
}

/// The draws appended to `before` to give `after`.
pub open spec fn new_draws(before: Seq<Seq<u8>>, after: Seq<Seq<u8>>) -> Seq<Seq<u8>> {
    after.subrange(before.len() as int, after.len() as int)
}

/// Each of `draws` is `FEDILINK_SHORT_CODE_LENGTH` bytes long and gives, for
/// `platform`, a key that `links` already holds.
pub open spec fn all_taken(links: Map<Seq<char>, Seq<char>>, platform: Seq<char>, draws: Seq<Seq<u8>>) -> bool {
    forall|k: int|
        0 <= k < draws.len() ==> draws[k].len() == FEDILINK_SHORT_CODE_LENGTH && links.contains_key(
            #[trigger] spec_fedilink_key(platform, draws[k]),
        )
}

/// What one call of `create_fedilink_url` does, in terms of the draws it took
/// from the system random source: codes already taken are drawn again; on a
/// failed draw, or when `FEDILINK_MAX_DRAWS` draws were all taken, nothing is
/// recorded; otherwise the link is made from the last draw of this call.
pub open spec fn made_by_draws(
    before: Map<Seq<char>, Seq<char>>,
    after: Map<Seq<char>, Seq<char>>,
    drawn_before: Seq<Seq<u8>>,
    drawn_after: Seq<Seq<u8>>,
    original_url: Seq<char>,
    platform: Seq<char>,
    res: Result<String, FedilinkError>,
) -> bool {
    let draws = new_draws(drawn_before, drawn_after);
    &&& extends(drawn_before, drawn_after)
    &&& if res matches Err(e) && e is RandomUnavailable {
        after == before && all_taken(before, platform, draws)
    } else if res matches Err(e) && e is ShortCodeTaken {
        after == before && draws.len() == FEDILINK_MAX_DRAWS && all_taken(before, platform, draws)
    } else {
        &&& draws.len() > 0
        &&& all_taken(before, platform, draws.drop_last())
        &&& draws.last().len() == FEDILINK_SHORT_CODE_LENGTH
        &&& registered(before, after, original_url, platform, draws.last(), res)
        &&& reads_back(platform, draws.last(), res)
    }
}

/// What a lookup of `key` in `links` answers.
pub open spec fn looked_up(links: Map<Seq<char>, Seq<char>>, key: Seq<char>, res: Option<&String>) -> bool {
    match res {
        Some(v) => links.contains_key(key) && v@ == links[key],
        None => !links.contains_key(key),
    }
}

/// The map key that a fedilink URL names: the path of the parsed URL without
/// its leading slash.
pub open spec fn fedilink_url_key(fedilink_url: Seq<char>) -> Seq<char> {
    parsed_url_path(fedilink_url).unwrap().drop_first()
}

/// A URL that parses and whose path begins with a slash, so that it names a
/// key.
pub open spec fn names_a_key(fedilink_url: Seq<char>) -> bool {
    has_rooted_path(fedilink_url)
}

/// What making a fedilink from the random bytes `random` does. If the key
/// `platform/CODE` is already recorded, nothing changes and the call fails.
/// Otherwise the key now maps to `original_url`, and the link is the base URL
/// with that key set as its path.
pub open spec fn registered(
    before: Map<Seq<char>, Seq<char>>,
    after: Map<Seq<char>, Seq<char>>,
    original_url: Seq<char>,
    platform: Seq<char>,
    random: Seq<u8>,
    res: Result<String, FedilinkError>,
) -> bool {
    let key = spec_fedilink_key(platform, random);
    if before.contains_key(key) {
        &&& after == before
        &&& res matches Err(e) && e is ShortCodeTaken
    } else {
        &&& after == before.insert(key, original_url)
        &&& match res {
            Ok(link) => url_after_set_path(FEDILINK_BASE_URL@, key) == Some(link@),
            Err(e) => e is UrlParse && parsed_url_path(FEDILINK_BASE_URL@) is None,
        }
    }
}

/// Some draw of `FEDILINK_SHORT_CODE_LENGTH` random bytes gives, for
/// `platform`, a key that `links` already holds.
pub open spec fn some_draw_taken(links: Map<Seq<char>, Seq<char>>, platform: Seq<char>) -> bool {
    exists|random: Seq<u8>|
        random.len() == FEDILINK_SHORT_CODE_LENGTH && links.contains_key(
            #[trigger] spec_fedilink_key(platform, random),
        )
}

/// A link made from `random` names the key that was recorded, wherever the
/// key is a plain path and the base URL's path begins with a slash.
pub open spec fn reads_back(platform: Seq<char>, random: Seq<u8>, res: Result<String, FedilinkError>) -> bool {
    res matches Ok(link) ==> (is_plain_path(spec_fedilink_key(platform, random)) && has_rooted_path(
        FEDILINK_BASE_URL@,
    ) ==> names_a_key(link@) && fedilink_url_key(link@) == spec_fedilink_key(platform, random))
}

impl Fedilinker {
    /// The byte strings this fedilinker has drawn from the system random
    /// source, oldest first.
    pub closed spec fn drawn(&self) -> Seq<Seq<u8>> {
        self.source.drawn()
    }

    /// An empty fedilinker.
    pub fn new() -> (linker: Self)
        ensures
            linker@ == Map::<Seq<char>, Seq<char>>::empty(),
            linker.drawn() == Seq::<Seq<u8>>::empty(),
    {
        let linker = Fedilinker { url_map: StringHashMap::new(), source: RandomSource::new() };
        assert(linker@ =~= Map::<Seq<char>, Seq<char>>::empty());
        linker
    }

    /// Number of fedilinks kept.
    pub fn len(&self) -> (n: usize)
        ensures
            n == self@.len(),
    {
        proof {
            assert(self@.dom() =~= self.url_map@.dom());
        }
        self.url_map.len()
    }

    /// Checks that `platform` is one fedilinks are made for.
    pub fn validate_platform(&self, platform: &str) -> (res: Result<(), FedilinkError>)
        ensures
            res is Ok <==> is_valid_platform(platform@),
            res matches Err(e) ==> e is InvalidPlatform,
    {
        if is_valid_platform_name(platform) {
            Ok(())
        } else {
            Err(FedilinkError::InvalidPlatform)
        }
    }

    /// Makes a fedilink for `original_url` on `platform` whose short code is
    /// drawn from `random`: unless `platform/CODE` is already taken, records
    /// `platform/CODE -> original_url`, then sets `platform/CODE` as the path
    /// of the base URL.
    pub fn create_fedilink_url_from_random(&mut self, original_url: &str, platform: &str, random: &[u8])
        -> (res: Result<String, FedilinkError>)
        requires
            platform@.len() + 1 + random@.len() <= MAX_URL_PATH_CHARS,
        ensures
            registered(old(self)@, final(self)@, original_url@, platform@, random@, res),
            reads_back(platform@, random@, res),
            final(self).drawn() == old(self).drawn(),
    {
        let key = fedilink_key(platform, random);
        if self.url_map.contains_key(key.as_str()) {
            assert(self@.contains_key(key@));
            return Err(FedilinkError::ShortCodeTaken);
        }
        let ghost before = self.url_map@;
        self.url_map.insert(key.clone(), original_url.to_owned());
        proof {
            assert(self.url_map@ == before.insert(key@, self.url_map@[key@]));
            assert(self@ =~= old(self)@.insert(key@, original_url@));
            reveal_strlit("http://fedilinks.net/");
        }
        match url_with_path(FEDILINK_BASE_URL, key.as_str()) {
            Ok(link) => {
                assert((seq!['/'] + key@).drop_first() =~= key@);
                Ok(link)
            },
            Err(e) => Err(FedilinkError::UrlParse(e)),
        }
    }

    /// Makes a fedilink for `original_url` on `platform`, with a short code
    /// drawn from fresh system randomness; a code that is already taken is
    /// drawn again, up to `FEDILINK_MAX_DRAWS` times in all.
    pub fn create_fedilink_url(&mut self, original_url: &str, platform: &str) -> (res: Result<String, FedilinkError>)
        requires
            platform@.len() + 1 + FEDILINK_SHORT_CODE_LENGTH <= MAX_URL_PATH_CHARS,
        ensures
            res matches Err(e) && (e is RandomUnavailable || e is ShortCodeTaken) ==> final(self)@ == old(self)@,
            res matches Err(e) && e is ShortCodeTaken ==> some_draw_taken(old(self)@, platform@),
            !(res matches Err(e) && (e is RandomUnavailable || e is ShortCodeTaken)) ==> exists|random: Seq<u8>|
                random.len() == FEDILINK_SHORT_CODE_LENGTH && #[trigger] registered(
                    old(self)@,
                    final(self)@,
                    original_url@,
                    platform@,
                    random,
                    res,
                ) && reads_back(platform@, random, res),
            made_by_draws(old(self)@, final(self)@, old(self).drawn(), final(self).drawn(), original_url@, platform@, res),
    {
        let mut draws: usize = 0;
        assert(old(self).drawn().subrange(0, old(self).drawn().len() as int) =~= old(self).drawn());
        assert(new_draws(old(self).drawn(), self.drawn()).len() == 0);
        while draws < FEDILINK_MAX_DRAWS
            invariant
                self@ == old(self)@,
                platform@.len() + 1 + FEDILINK_SHORT_CODE_LENGTH <= MAX_URL_PATH_CHARS,
                draws <= FEDILINK_MAX_DRAWS,
                draws > 0 ==> some_draw_taken(old(self)@, platform@),
                extends(old(self).drawn(), self.drawn()),
                new_draws(old(self).drawn(), self.drawn()).len() == draws,
                all_taken(old(self)@, platform@, new_draws(old(self).drawn(), self.drawn())),
            decreases FEDILINK_MAX_DRAWS - draws,
        {
            let ghost drawn_before = self.drawn();
            match random_bytes(&mut self.source) {
                Ok(random) => {
                    proof {
                        let d = new_draws(old(self).drawn(), self.drawn());
                        assert(d.drop_last() =~= new_draws(old(self).drawn(), drawn_before));
                        assert(d.last() == random@);
                        assert(self.drawn().subrange(0, old(self).drawn().len() as int) =~= old(self).drawn());
                    }
                    let res = self.create_fedilink_url_from_random(original_url, platform, &random);
                    match res {
                        Err(FedilinkError::ShortCodeTaken) => {
                            assert(self@.contains_key(spec_fedilink_key(platform@, random@)));
                            proof {
                                let d = new_draws(old(self).drawn(), self.drawn());
                                assert forall|k: int| 0 <= k < d.len() implies (#[trigger] d[k]).len()
                                    == FEDILINK_SHORT_CODE_LENGTH && old(self)@.contains_key(
                                    spec_fedilink_key(platform@, d[k]),
                                ) by {
                                    let dp = new_draws(old(self).drawn(), drawn_before);
                                    assert(d.drop_last() =~= dp);
                                    if k < d.len() - 1 {
                                        assert(d[k] == dp[k]);
                                        assert(old(self)@.contains_key(spec_fedilink_key(platform@, dp[k])));
                                    } else {
                                        assert(d[k] == random@);
                                    }
                                }
                                assert(all_taken(old(self)@, platform@, d));
                            }
                        },
                        _ => {
                            return res;
                        },
                    }
                },
                Err(e) => {
                    proof {
                        assert(new_draws(old(self).drawn(), self.drawn()) =~= new_draws(old(self).drawn(), drawn_before));
                    }
                    return Err(FedilinkError::RandomUnavailable(e));
                },
            }
            draws = draws + 1;
        }
        Err(FedilinkError::ShortCodeTaken)
    }

    /// Makes a fedilink for `original_url` on `platform`, after checking that
    /// the platform is one fedilinks are made for and that the base URL has a
    /// path to set; nothing is recorded when either check fails. The link
    /// made reads back to the key that was recorded.
    pub fn create_fedilink(&mut self, original_url: &String, platform: &String)
        -> (res: Result<String, FedilinkError>)
        ensures
            res is Err ==> final(self)@ == old(self)@,
            res matches Err(e) && e is InvalidPlatform <==> !is_valid_platform(platform@),
            res matches Err(e) && e is ShortCodeTaken ==> some_draw_taken(old(self)@, platform@),
            res matches Err(e) && e is UrlParse ==> parsed_url_path(FEDILINK_BASE_URL@) is None,
            res matches Err(e) && e is CannotBeABase ==> !has_rooted_path(FEDILINK_BASE_URL@),
            res matches Ok(link) ==> exists|random: Seq<u8>|
                random.len() == FEDILINK_SHORT_CODE_LENGTH && #[trigger] registered(
                    old(self)@,
                    final(self)@,
                    original_url@,
                    platform@,
                    random,
                    res,
                ) && names_a_key(link@) && fedilink_url_key(link@) == spec_fedilink_key(platform@, random),
            extends(old(self).drawn(), final(self).drawn()),
            res matches Err(e) && (e is InvalidPlatform || e is UrlParse || e is CannotBeABase)
                ==> final(self).drawn() == old(self).drawn(),
            is_valid_platform(platform@) && has_rooted_path(FEDILINK_BASE_URL@) ==> made_by_draws(
                old(self)@,
                final(self)@,
                old(self).drawn(),
                final(self).drawn(),
                original_url@,
                platform@,
                res,
            ),
            res matches Ok(link) ==> new_draws(old(self).drawn(), final(self).drawn()).len() > 0
                && names_a_key(link@) && fedilink_url_key(link@) == spec_fedilink_key(
                platform@,
                new_draws(old(self).drawn(), final(self).drawn()).last(),
            ),
    {
        if let Err(e) = self.validate_platform(platform.as_str()) {
            assert(old(self).drawn().subrange(0, old(self).drawn().len() as int) =~= old(self).drawn());
            return Err(e);
        }
        assert(old(self).drawn().subrange(0, old(self).drawn().len() as int) =~= old(self).drawn());
        proof {
            lemma_valid_platform_is_plain(platform@);
        }
        match url_path_of(FEDILINK_BASE_URL) {
            Ok(base_path) => {
                if !starts_with_slash(base_path.as_str()) {
                    return Err(FedilinkError::CannotBeABase);
                }
            },
            Err(e) => {
                return Err(FedilinkError::UrlParse(e));
            },
        }
        let res = self.create_fedilink_url(original_url.as_str(), platform.as_str());
        proof {
            if res is Ok {
                let random = choose|random: Seq<u8>|
                    random.len() == FEDILINK_SHORT_CODE_LENGTH && #[trigger] registered(
                        old(self)@,
                        self@,
                        original_url@,
                        platform@,
                        random,
                        res,
                    ) && reads_back(platform@, random, res);
                lemma_key_is_plain(platform@, random);
            }
        }
        res
    }

    /// Looks up the original URL for a fedilink path such as `/lemmy/CODE`:
    /// the key is the path without its leading slash.
    pub fn retri_url_from_path(&self, path: &str) -> (res: Option<&String>)
        requires
            is_rooted(path@),
        ensures
            looked_up(self@, path@.drop_first(), res),
    {
        let key = strip_leading_slash(path);
        self.url_map.get(key)
    }

    /// Looks up the original URL that a fedilink URL stands for: parses the
    /// URL and looks up its path without the leading slash.
    pub fn retri_url_from_fedilink(&mut self, fedilink_url: &str) -> (res: Option<&String>)
        requires
            names_a_key(fedilink_url@),
        ensures
            final(self)@ == old(self)@,
            looked_up(old(self)@, fedilink_url_key(fedilink_url@), res),
    {
        let path = match url_path_of(fedilink_url) {
            Ok(path) => path,
            // `names_a_key` rules this out
            Err(_) => return None,
        };
        self.retri_url_from_path(path.as_str())
    }

    /// Like `retri_url_from_fedilink`, for any text: reports a URL that does
    /// not parse, or whose path does not begin with a slash, as an error.
    pub fn retri_url_from_fedilink_checked(&mut self, fedilink_url: &str)
        -> (res: Result<Option<&String>, FedilinkError>)
        ensures
            final(self)@ == old(self)@,
            res is Ok <==> names_a_key(fedilink_url@),
            res matches Ok(found) ==> looked_up(old(self)@, fedilink_url_key(fedilink_url@), found),
            res matches Err(e) ==> (e is UrlParse <==> parsed_url_path(fedilink_url@) is None),
            res matches Err(e) ==> (e is UrlParse || e is CannotBeABase),
    {
        match url_path_of(fedilink_url) {
            Ok(path) => {
                if starts_with_slash(path.as_str()) {
                    Ok(self.retri_url_from_fedilink(fedilink_url))
                } else {
                    Err(FedilinkError::CannotBeABase)
                }
            },
            Err(e) => Err(FedilinkError::UrlParse(e)),
        }
    }
}

/// A fedilink that was made reads back as the original URL: a link that
/// names the key it was made for finds, in the fedilinker right after it was
/// made, the URL it was made for.
pub proof fn law_created_link_leads_back(
    before: Map<Seq<char>, Seq<char>>,
    after: Map<Seq<char>, Seq<char>>,
    original_url: Seq<char>,
    platform: Seq<char>,
    random: Seq<u8>,
    link: String,
    found: Option<&String>,
)
    requires
        registered(before, after, original_url, platform, random, Ok(link)),
        fedilink_url_key(link@) == spec_fedilink_key(platform, random),
        looked_up(after, fedilink_url_key(link@), found),
    ensures
        found matches Some(v) && v@ == original_url,
{
}

/// A fedilink made by `create_fedilink_url` (and so by `create_fedilink`) is
/// made from the bytes the system random source handed out last during that
/// call: its key is the platform, a slash, and for each of those eight bytes
/// the alphabet symbol at the byte's value modulo 62; that key was free before
/// the call and now maps to the URL the link was made for, and nothing else
/// changed. Every earlier draw of the call gave a key that was already taken.
pub proof fn law_link_made_from_drawn_bytes(
    before: Map<Seq<char>, Seq<char>>,
    after: Map<Seq<char>, Seq<char>>,
    drawn_before: Seq<Seq<u8>>,
    drawn_after: Seq<Seq<u8>>,
    original_url: Seq<char>,
    platform: Seq<char>,
    link: String,
)
    requires
        made_by_draws(before, after, drawn_before, drawn_after, original_url, platform, Ok(link)),
    ensures
        drawn_after.len() > drawn_before.len(),
        drawn_after.subrange(0, drawn_before.len() as int) == drawn_before,
        drawn_after.last().len() == 8,
        spec_fedilink_key(platform, drawn_after.last()).len() == platform.len() + 9,
        spec_fedilink_key(platform, drawn_after.last()).subrange(0, platform.len() as int) == platform,
        spec_fedilink_key(platform, drawn_after.last())[platform.len() as int] == '/',
        forall|i: int|
            0 <= i < 8 ==> #[trigger] spec_fedilink_key(platform, drawn_after.last())[platform.len() + 1 + i]
                == ALPHANUMERIC@[drawn_after.last()[i] as int % 62],
        !before.contains_key(spec_fedilink_key(platform, drawn_after.last())),
        after == before.insert(spec_fedilink_key(platform, drawn_after.last()), original_url),
        forall|k: int|
            drawn_before.len() <= k < drawn_after.len() - 1 ==> before.contains_key(
                #[trigger] spec_fedilink_key(platform, drawn_after[k]),
            ),
{
    let draws = new_draws(drawn_before, drawn_after);
    assert(draws.last() == drawn_after.last());
    let key = spec_fedilink_key(platform, drawn_after.last());
    assert(key.subrange(0, platform.len() as int) =~= platform);
    assert forall|k: int| drawn_before.len() <= k < drawn_after.len() - 1 implies before.contains_key(
        #[trigger] spec_fedilink_key(platform, drawn_after[k]),
    ) by {
        assert(drawn_after[k] == draws.drop_last()[k - drawn_before.len()]);
    }
}

/// Making a fedilink, seen through lookups by URL: for a plain platform and a
/// base URL whose path begins with a slash (what `create_fedilink` checks),
/// the link made names a key that was free before, reads back to the URL it
/// was made for, and every URL naming another key reads back as before.
pub proof fn law_create_then_lookup(
    before: Map<Seq<char>, Seq<char>>,
    after: Map<Seq<char>, Seq<char>>,
    original_url: Seq<char>,
    platform: Seq<char>,
    random: Seq<u8>,
    link: String,
    other_url: Seq<char>,
)
    requires
        registered(before, after, original_url, platform, random, Ok(link)),
        reads_back(platform, random, Ok(link)),
        is_plain_path(platform),
        random.len() > 0,
        has_rooted_path(FEDILINK_BASE_URL@),
    ensures
        names_a_key(link@),
        !before.contains_key(fedilink_url_key(link@)),
        after.contains_key(fedilink_url_key(link@)),
        after[fedilink_url_key(link@)] == original_url,
        names_a_key(other_url) && fedilink_url_key(other_url) != fedilink_url_key(link@) ==> {
            &&& after.contains_key(fedilink_url_key(other_url)) == before.contains_key(fedilink_url_key(other_url))
            &&& before.contains_key(fedilink_url_key(other_url)) ==> after[fedilink_url_key(other_url)]
                == before[fedilink_url_key(other_url)]
        },
{
    lemma_key_is_plain(platform, random);
}

/// Every new fedilink is new: a fedilink made after another one (by any later
/// call that succeeds) has a different key, and where both links name the
/// keys they were made for, the two links differ as text too.
pub proof fn law_fedilinks_are_unique(
    m0: Map<Seq<char>, Seq<char>>,
    m1: Map<Seq<char>, Seq<char>>,
    m2: Map<Seq<char>, Seq<char>>,
    url1: Seq<char>,
    url2: Seq<char>,
    platform1: Seq<char>,
    platform2: Seq<char>,
    random1: Seq<u8>,
    random2: Seq<u8>,
    link1: String,
    link2: String,
)
    requires
        registered(m0, m1, url1, platform1, random1, Ok(link1)),
        registered(m1, m2, url2, platform2, random2, Ok(link2)),
    ensures
        spec_fedilink_key(platform1, random1) != spec_fedilink_key(platform2, random2),
        fedilink_url_key(link1@) == spec_fedilink_key(platform1, random1) && fedilink_url_key(link2@)
            == spec_fedilink_key(platform2, random2) ==> link1@ != link2@,
{
}

/// Making a fedilink leaves every other recorded link as it was, and the key
/// it was made from is recorded afterwards, whether newly or from before.
pub proof fn law_create_keeps_other_links(
    before: Map<Seq<char>, Seq<char>>,
    after: Map<Seq<char>, Seq<char>>,
    original_url: Seq<char>,
    platform: Seq<char>,
    random: Seq<u8>,
    res: Result<String, FedilinkError>,
    other: Seq<char>,
)
    requires
        registered(before, after, original_url, platform, random, res),
        other != spec_fedilink_key(platform, random),
    ensures
        after.contains_key(other) == before.contains_key(other),
        before.contains_key(other) ==> after[other] == before[other],
        after.contains_key(spec_fedilink_key(platform, random)),
{
}

/// One call that makes (or fails to make) a fedilink, seen on the map: either
/// nothing changed, or the call is described by `registered`.
pub open spec fn creation_step(before: Map<Seq<char>, Seq<char>>, after: Map<Seq<char>, Seq<char>>) -> bool {
    ||| after == before
    ||| exists|original_url: Seq<char>, platform: Seq<char>, random: Seq<u8>, res: Result<String, FedilinkError>|
        #[trigger] registered(before, after, original_url, platform, random, res)
}

/// Over any history of calls that make fedilinks, a recorded key keeps the
/// URL it was first recorded with: the lookup of a link answers the URL of
/// the one call that made its key.
pub proof fn law_history_keeps_links(history: Seq<Map<Seq<char>, Seq<char>>>, i: int, j: int, key: Seq<char>)
    requires
        forall|t: int| 0 <= t < history.len() - 1 ==> creation_step(#[trigger] history[t], history[t + 1]),
        0 <= i <= j < history.len(),
        history[i].contains_key(key),
    ensures
        history[j].contains_key(key),
        history[j][key] == history[i][key],
    decreases j - i,
{
    if j > i {
        law_history_keeps_links(history, i, j - 1, key);
        assert(creation_step(history[j - 1], history[j]));
        if history[j] != history[j - 1] {
            let (u, p, r, res) = choose|
                original_url: Seq<char>,
                platform: Seq<char>,
                random: Seq<u8>,
                res: Result<String, FedilinkError>,
            | #[trigger] registered(history[j - 1], history[j], original_url, platform, random, res);
            assert(registered(history[j - 1], history[j], u, p, r, res));
        }
    }
}

} // verus!
