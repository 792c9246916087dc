//! What the gateway is told when it starts.

use vstd::prelude::*;

use crate::text::{ends_with, has_suffix, lemma_trim_end, lemma_trim_end_run, trim_end, trim_end_of};

verus! {

/// The settings of a running gateway. Durations are in nanoseconds.
#[derive(Debug, Clone)]
pub struct RuntimeConfig {
    pub llm_api_base: String,
    pub openai_api_key: Option<String>,
    pub gateway_host: String,
    pub gateway_port: u16,
    pub upstream_ready_timeout_ns: u128,
    pub upstream_ready_interval_ns: u128,
}

/// The base of an upstream URL: `url` without slashes at its end, without one
/// `/v1` behind them, and without the slashes in front of that.
pub open spec fn normalized(url: Seq<char>) -> Seq<char> {
    let trimmed = trim_end(url, '/');
    if ends_with(trimmed, "/v1"@) {
        trim_end(trimmed.take(trimmed.len() - 3), '/')
    } else {
        trimmed
    }
}

/// Brings a base URL into the form to which endpoint paths are appended.
#[must_use]
pub fn normalize_base_url(url: &str) -> (base: String)
    ensures
        base@ == normalized(url@),
{
    proof {
        reveal_strlit("/v1");
    }
    let trimmed = trim_end_of(url, '/');
    if has_suffix(trimmed, "/v1") {
        let keep: usize = trimmed.unicode_len() - 3;
        let stem = trimmed.substring_char(0, keep);
        assert(stem@ =~= trimmed@.take(trimmed@.len() - 3));
        trim_end_of(stem, '/').to_owned()
    } else {
        trimmed.to_owned()
    }
}

/// A normalised base never ends in a slash, and is where the given URL begins.
pub proof fn law_base_is_slashless_prefix(url: Seq<char>)
    ensures
        normalized(url).len() > 0 ==> normalized(url).last() != '/',
        normalized(url).is_prefix_of(url),
{
    reveal_strlit("/v1");
    let trimmed = trim_end(url, '/');
    lemma_trim_end(url, '/');
    if ends_with(trimmed, "/v1"@) {
        lemma_trim_end(trimmed.take(trimmed.len() - 3), '/');
    }
}

/// Slashes at the end of a URL make no difference.
pub proof fn law_trailing_slashes_ignored(url: Seq<char>, slashes: Seq<char>)
    requires
        forall|i: int| 0 <= i < slashes.len() ==> slashes[i] == '/',
    ensures
        normalized(url + slashes) == normalized(url),
{
    lemma_trim_end_run(url, slashes, '/');
}

/// A URL that ends neither in a slash nor in `/v1` is kept as it is.
pub proof fn law_plain_base_unchanged(url: Seq<char>)
    requires
        !ends_with(url, "/"@),
        !ends_with(url, "/v1"@),
    ensures
        normalized(url) == url,
{
    reveal_strlit("/");
    if url.len() > 0 && url.last() == '/' {
        assert(url.skip(url.len() - 1) =~= "/"@);
    }
}

/// `/v1` at the end of a URL, with or without slashes around it, makes no
/// difference, provided the rest does not end in `/v1` once more.
pub proof fn law_version_suffix_ignored(base: Seq<char>, before: Seq<char>, after: Seq<char>)
    requires
        forall|i: int| 0 <= i < before.len() ==> before[i] == '/',
        forall|i: int| 0 <= i < after.len() ==> after[i] == '/',
    ensures
        normalized(base + before + "/v1"@ + after) == trim_end(base, '/'),
        !ends_with(trim_end(base, '/'), "/v1"@) ==> normalized(base + before + "/v1"@ + after)
            == normalized(base),
{
    reveal_strlit("/v1");
    let with = base + before + "/v1"@;
    law_trailing_slashes_ignored(with, after);
    assert(trim_end(with, '/') == with);
    assert(with.skip(with.len() - 3) =~= "/v1"@);
    assert(with.take(with.len() - 3) =~= base + before);
    lemma_trim_end_run(base, before, '/');
}

/// Normalising twice is normalising once, unless the first time left a `/v1`
/// at the end.
pub proof fn law_normalising_again_changes_nothing(url: Seq<char>)
    requires
        !ends_with(normalized(url), "/v1"@),
    ensures
        normalized(normalized(url)) == normalized(url),
{
    law_base_is_slashless_prefix(url);
}

/// What is left of a URL, character by character. A text that does not end in a
/// slash is kept, with whatever number of slashes behind it, if it does not end
/// in `/v1` either; with `/v1` behind it, and whatever number of slashes before
/// and after that, it is kept in any case. Every URL is of one of the two forms.
pub proof fn law_base_is_what_stands_before(
    stem: Seq<char>,
    before: Seq<char>,
    after: Seq<char>,
)
    requires
        stem.len() > 0 ==> stem[stem.len() - 1] != '/',
        forall|i: int| 0 <= i < before.len() ==> before[i] == '/',
        forall|i: int| 0 <= i < after.len() ==> after[i] == '/',
    ensures
        normalized(stem + before + seq!['/', 'v', '1'] + after) == stem,
        !(stem.len() >= 3 && stem[stem.len() - 3] == '/' && stem[stem.len() - 2] == 'v'
            && stem[stem.len() - 1] == '1') ==> normalized(stem + after) == stem,
{
    reveal_strlit("/v1");
    assert("/v1"@ =~= seq!['/', 'v', '1']);
    law_version_suffix_ignored(stem, before, after);
    law_trailing_slashes_ignored(stem, after);
    if ends_with(stem, "/v1"@) {
        let end = stem.skip(stem.len() - 3);
        assert(end[0] == '/' && end[1] == 'v' && end[2] == '1');
    }
}

} // verus!
