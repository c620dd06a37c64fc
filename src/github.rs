//! Release and download URLs, optionally routed through a proxy.
use vstd::prelude::*;
use vstd::string::*;

verus! {

/// A release as listed by the release API.
#[derive(Debug)]
pub struct GitHubRelease {
    pub tag_name: String,
    pub name: String,
    pub published_at: String,
    pub prerelease: bool,
    pub assets: Vec<GitHubAsset>,
    pub html_url: String,
    pub body: Option<String>,
}

/// A downloadable file of a release.
#[derive(Debug)]
pub struct GitHubAsset {
    pub name: String,
    pub browser_download_url: String,
    pub size: u64,
}

/// `s` without its trailing slashes.
pub open spec fn trim_slashes(s: Seq<char>) -> Seq<char>
    decreases s.len(),
{
    if s.len() > 0 && s.last() == '/' {
        trim_slashes(s.drop_last())
    } else {
        s
    }
}

/// A URL wrapped by a proxy prefix: unchanged when the proxy is empty.
pub open spec fn wrapped(proxy: Seq<char>, url: Seq<char>) -> Seq<char> {
    if proxy.len() == 0 {
        url
    } else {
        trim_slashes(proxy) + "/"@ + url
    }
}

pub open spec fn api_url() -> Seq<char> {
    "https://api.github.com/repos/AstrBotDevs/AstrBot/releases?per_page=30"@
}

pub open spec fn archive_url(tag: Seq<char>) -> Seq<char> {
    "https://github.com/AstrBotDevs/AstrBot/archive/"@ + tag + ".zip"@
}

/// Wrap a URL with the proxy prefix; an empty proxy leaves it unchanged.
pub fn wrap_with_proxy(proxy: &str, url: &str) -> (r: String)
    ensures
        r@ == wrapped(proxy@, url@),
{
    let n = proxy.unicode_len();
    if n == 0 {
        return String::from_str(url);
    }
    let mut end: usize = n;
    assert(proxy@.take(n as int) =~= proxy@);
    while end > 0 && proxy.get_char(end - 1) == '/'
        invariant
            n == proxy@.len(),
            end <= n,
            trim_slashes(proxy@) == trim_slashes(proxy@.take(end as int)),
        decreases end,
    {
        assert(proxy@.take(end as int).drop_last() =~= proxy@.take(end - 1));
        end = end - 1;
    }
    assert(proxy@.take(n as int) =~= proxy@);
    assert(trim_slashes(proxy@.take(end as int)) == proxy@.take(end as int));
    let base = String::from_str(proxy.substring_char(0, end));
    assert(proxy@.subrange(0, end as int) =~= proxy@.take(end as int));
    base.concat("/").concat(url)
}

/// The release-list API URL, optionally through a proxy.
pub fn build_api_url(proxy: &str) -> (r: String)
    ensures
        r@ == wrapped(proxy@, api_url()),
{
    wrap_with_proxy(proxy, "https://api.github.com/repos/AstrBotDevs/AstrBot/releases?per_page=30")
}

fn raw_archive_url(tag: &str) -> (r: String)
    ensures
        r@ == archive_url(tag@),
{
    String::from_str("https://github.com/AstrBotDevs/AstrBot/archive/").concat(tag).concat(".zip")
}

/// The source archive URL of a tag, optionally through a proxy.
pub fn build_download_url(proxy: &str, tag: &str) -> (r: String)
    ensures
        r@ == wrapped(proxy@, archive_url(tag@)),
{
    let raw = raw_archive_url(tag);
    wrap_with_proxy(proxy, raw.as_str())
}

/// The source archive URL of a tag, through the configured proxy when the
/// configuration could be read (`proxy` is `None` when it could not).
pub fn get_source_archive_url(proxy: Option<&str>, tag: &str) -> (r: String)
    ensures
        match proxy {
            Some(p) => r@ == wrapped(p@, archive_url(tag@)),
            None => r@ == archive_url(tag@),
        },
{
    match proxy {
        Some(p) => build_download_url(p, tag),
        None => raw_archive_url(tag),
    }
}

} // verus!
