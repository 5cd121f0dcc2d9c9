//! The release registry that the compiler is fetched from: where a release is
//! asked for, and which of its assets is the one for a platform.

use vstd::prelude::*;
use vstd::string::*;
use crate::path::{join_path, joined};
use crate::protoc::provider::{DownloadError, DownloadFailure};
use crate::text::same_text;

verus! {

/// One asset of a release.
#[derive(Clone, Debug, PartialEq, Eq)]
pub struct Asset {
    /// The asset's file name.
    pub name: String,
    /// Where the asset can be fetched.
    pub browser_download_url: String,
}

/// What is to be fetched for a platform.
#[derive(Clone, Debug, PartialEq, Eq)]
pub struct AssetDownload {
    /// The asset's file name.
    pub name: String,
    /// Where the asset can be fetched.
    pub url: String,
    /// The path to store the asset at.
    pub destination: String,
}

/// The downloader that asks the release registry of the compiler's project.
#[derive(Debug)]
pub struct GithubDownloader {
    name_pattern: String,
}

/// What group `group` of the regular expression `pattern` holds for its
/// leftmost match in `text`; nothing where `pattern` is no regular
/// expression, where it matches nowhere in `text`, or where the group took no
/// part in the match.
pub uninterp spec fn regex_capture(pattern: Seq<char>, text: Seq<char>, group: nat) -> Option<
    Seq<char>,
>;

/// `regex::Regex::new` and `captures`, then `Captures::get`: the text of one
/// group of the leftmost match of `pattern` in `text`.
#[verifier::external_body]
fn capture(pattern: &str, text: &str, group: usize) -> (out: Option<String>)
    ensures
        out is Some <==> regex_capture(pattern@, text@, group as nat) is Some,
        out matches Some(found) ==> found@ == regex_capture(pattern@, text@, group as nat).unwrap(),
{
    let re = regex::Regex::new(pattern).ok()?;
    re.captures(text)?.get(group).map(|m| m.as_str().to_owned())
}

/// The regular expression that the names of the compiler's release archives
/// match; its first group is the platform token.
pub open spec fn asset_pattern() -> Seq<char> {
    "protoc-.+-((linux|osx|win).+).zip"@
}

/// The platform token in the name of an asset, if the name is that of a
/// release archive of the compiler.
pub open spec fn platform_token(name: Seq<char>) -> Option<Seq<char>> {
    regex_capture(asset_pattern(), name, 1)
}

/// The address at which the release with the tag `tag` is asked for.
pub open spec fn release_address(tag: Seq<char>) -> Seq<char> {
    "https://api.github.com/repos/protocolbuffers/protobuf/releases/tags/"@ + tag
}

/// Whether `token` is exactly the platform token `platform`.
pub open spec fn is_platform(token: Option<String>, platform: Seq<char>) -> bool {
    token matches Some(text) && text@ == platform
}

/// The position of the first of `tokens` that is `platform`, or their number
/// where none is.
pub open spec fn first_match(tokens: Seq<Option<String>>, platform: Seq<char>) -> nat
    decreases tokens.len(),
{
    if tokens.len() == 0 || is_platform(tokens[0], platform) {
        0
    } else {
        1 + first_match(tokens.drop_first(), platform)
    }
}

/// `first_match` is the least position that holds `platform`.
pub proof fn lemma_first_match(tokens: Seq<Option<String>>, platform: Seq<char>, at: nat)
    requires
        at <= tokens.len(),
        forall|k: int| 0 <= k < at ==> !is_platform(#[trigger] tokens[k], platform),
        at < tokens.len() ==> is_platform(tokens[at as int], platform),
    ensures
        first_match(tokens, platform) == at,
    decreases tokens.len(),
{
    if tokens.len() > 0 && at > 0 {
        let rest = tokens.drop_first();
        assert(!is_platform(tokens[0], platform));
        assert forall|k: int| 0 <= k < at - 1 implies !is_platform(
            #[trigger] rest[k],
            platform,
        ) by {
            assert(rest[k] == tokens[k + 1]);
        }
        lemma_first_match(rest, platform, (at - 1) as nat);
    }
}

/// Picks the first of `tokens` that is exactly `platform`.
pub fn choose_asset(tokens: &Vec<Option<String>>, platform: &str) -> (out: Option<usize>)
    ensures
        out is Some <==> first_match(tokens@, platform@) < tokens@.len(),
        out matches Some(at) ==> at == first_match(tokens@, platform@),
{
    let mut i: usize = 0;
    while i < tokens.len()
        invariant
            i <= tokens.len(),
            forall|k: int| 0 <= k < i ==> !is_platform(#[trigger] tokens@[k], platform@),
        decreases tokens.len() - i,
    {
        let hit = match &tokens[i] {
            Some(token) => same_text(token.as_str(), platform),
            None => false,
        };
        if hit {
            proof {
                lemma_first_match(tokens@, platform@, i as nat);
            }
            return Some(i);
        }
        i = i + 1;
    }
    proof {
        lemma_first_match(tokens@, platform@, tokens@.len());
    }
    None
}

/// The platform tokens of the names of `assets`, in order.
pub open spec fn tokens_of(assets: Seq<Asset>, tokens: Seq<Option<String>>) -> bool {
    tokens.len() == assets.len() && forall|i: int|
        0 <= i < assets.len() ==> (match #[trigger] tokens[i] {
            Some(token) => Some(token@),
            None => None,
        }) == platform_token(assets[i].name@)
}

/// The position of the first of `assets` whose name holds the platform token
/// `platform`, or their number where none does.
pub open spec fn first_asset(assets: Seq<Asset>, platform: Seq<char>) -> nat
    decreases assets.len(),
{
    if assets.len() == 0 || platform_token(assets[0].name@) == Some(platform) {
        0
    } else {
        1 + first_asset(assets.drop_first(), platform)
    }
}

/// What is fetched for the asset `asset` into the directory `path`: the
/// asset, stored under its own name.
pub open spec fn fetches(download: AssetDownload, asset: Asset, path: Seq<char>) -> bool {
    &&& download.name@ == asset.name@
    &&& download.url@ == asset.browser_download_url@
    &&& download.destination@ == joined(path, asset.name@)
}

impl GithubDownloader {
    #[verifier::type_invariant]
    spec fn knows_names(self) -> bool {
        self.name_pattern@ == asset_pattern()
    }

    /// The regular expression by which the downloader knows the compiler's
    /// release archives.
    pub closed spec fn pattern(&self) -> Seq<char> {
        self.name_pattern@
    }

    /// The downloader that knows the compiler's release archives by their
    /// names.
    pub fn new() -> (out: GithubDownloader)
        ensures
            out.pattern() == asset_pattern(),
    {
        GithubDownloader { name_pattern: String::from_str("protoc-.+-((linux|osx|win).+).zip") }
    }

    /// The address at which the release with the tag `tag` is asked for.
    pub fn release_url(&self, tag: &str) -> (out: String)
        ensures
            out@ == release_address(tag@),
    {
        let mut url = String::from_str(
            "https://api.github.com/repos/protocolbuffers/protobuf/releases/tags/",
        );
        url.append(tag);
        url
    }

    /// The platform token in the name of an asset.
    pub fn asset_platform(&self, name: &str) -> (out: Option<String>)
        ensures
            out is Some <==> platform_token(name@) is Some,
            out matches Some(token) ==> token@ == platform_token(name@).unwrap(),
    {
        proof {
            use_type_invariant(self);
        }
        capture(self.name_pattern.as_str(), name, 1)
    }

    /// Picks, among the assets of a release, the first whose name holds the
    /// platform token `platform`, to be stored under its name in the
    /// directory `path`. A release without such an asset has the compiler
    /// not found.
    pub fn download(&self, assets: &Vec<Asset>, platform: &str, path: &str) -> (out: Result<
        AssetDownload,
        DownloadError,
    >)
        ensures
            out is Ok <==> first_asset(assets@, platform@) < assets@.len(),
            out matches Ok(download) ==> fetches(
                download,
                assets@[first_asset(assets@, platform@) as int],
                path@,
            ),
            out matches Err(e) ==> e@ == DownloadFailure::NotFound,
    {
        let mut tokens: Vec<Option<String>> = Vec::new();
        let mut i: usize = 0;
        while i < assets.len()
            invariant
                i <= assets.len(),
                tokens_of(assets@.take(i as int), tokens@),
            decreases assets.len() - i,
        {
            tokens.push(self.asset_platform(assets[i].name.as_str()));
            i = i + 1;
        }
        assert(assets@.take(assets.len() as int) =~= assets@);
        match choose_asset(&tokens, platform) {
            None => {
                proof {
                    lemma_choice(assets@, tokens@, platform@);
                }
                Err(DownloadError::NotFound)
            },
            Some(at) => {
                proof {
                    lemma_choice(assets@, tokens@, platform@);
                }
                let asset = &assets[at];
                Ok(
                    AssetDownload {
                        name: asset.name.clone(),
                        url: asset.browser_download_url.clone(),
                        destination: join_path(path, asset.name.as_str()),
                    },
                )
            },
        }
    }
}

impl Default for GithubDownloader {
    /// The downloader that knows the compiler's release archives by their
    /// names.
    fn default() -> (out: GithubDownloader)
        ensures
            out.pattern() == asset_pattern(),
    {
        GithubDownloader::new()
    }
}

/// The first of the tokens that is the platform stands where the first asset
/// for the platform stands.
proof fn lemma_choice(assets: Seq<Asset>, tokens: Seq<Option<String>>, platform: Seq<char>)
    requires
        tokens_of(assets, tokens),
    ensures
        first_match(tokens, platform) == first_asset(assets, platform),
        first_asset(assets, platform) <= assets.len(),
    decreases tokens.len(),
{
    if tokens.len() > 0 {
        assert(tokens[0] is Some ==> Some(tokens[0]->0@) == platform_token(assets[0].name@));
        if !is_platform(tokens[0], platform) {
            let rest = tokens.drop_first();
            let others = assets.drop_first();
            assert forall|i: int| 0 <= i < others.len() implies (match #[trigger] rest[i] {
                Some(token) => Some(token@),
                None => None,
            }) == platform_token(others[i].name@) by {
                assert(rest[i] == tokens[i + 1]);
                assert(others[i] == assets[i + 1]);
            }
            lemma_choice(others, rest, platform);
        }
    }
}

/// The first asset for a platform is the first: its name holds the
/// platform's token, and the name of no asset before it does. Where there is
/// none, no asset's name holds the token.
pub proof fn lemma_first_asset(assets: Seq<Asset>, platform: Seq<char>)
    ensures
        first_asset(assets, platform) <= assets.len(),
        first_asset(assets, platform) < assets.len() ==> platform_token(
            assets[first_asset(assets, platform) as int].name@,
        ) == Some(platform),
        forall|k: int|
            0 <= k < first_asset(assets, platform) ==> platform_token(
                (#[trigger] assets[k]).name@,
            ) != Some(platform),
    decreases assets.len(),
{
    if assets.len() > 0 && platform_token(assets[0].name@) != Some(platform) {
        let others = assets.drop_first();
        lemma_first_asset(others, platform);
        let at = first_asset(others, platform);
        if at < others.len() {
            assert(others[at as int] == assets[at as int + 1]);
        }
        assert forall|k: int| 0 <= k < at + 1 implies platform_token(
            (#[trigger] assets[k]).name@,
        ) != Some(platform) by {
            if k > 0 {
                assert(others[k - 1] == assets[k]);
            }
        }
    }
}

} // verus!
