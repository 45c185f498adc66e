//! Release assets of the native library: their metadata and checksums.

use crate::text::{has_prefix, same_text, skip_chars, starts_with};
use vstd::prelude::*;

verus! {

/// The lowercase hexadecimal SHA-256 digest of `data`, as the `sha2` crate
/// computes and `{:x}` prints it.
pub uninterp spec fn sha256_hex_of(data: Seq<u8>) -> Seq<char>;

/// Relies on `sha2::Sha256::digest`, printed with `{:x}`: the lowercase hex
/// digest of `data`, which depends on the bytes alone.
#[verifier::external_body]
fn sha256_hex(data: &[u8]) -> (r: String)
    ensures
        r@ == sha256_hex_of(data@),
{
    format!("{:x}", <sha2::Sha256 as sha2::Digest>::digest(data))
}

/// Whether `contents` has the lowercase hex SHA-256 digest `want`.
pub fn checksum_matches(contents: &[u8], want: &str) -> (r: bool)
    ensures
        r == (sha256_hex_of(contents@) == want@),
{
    let got = sha256_hex(contents);
    same_text(got.as_str(), want)
}

/// An individual asset of a release.
#[derive(Debug, Clone)]
pub struct ReleaseAsset {
    name: String,
    browser_download_url: String,
    digest: Option<String>,
}

/// The checksum that a digest field gives: the text after `sha256:`.
pub open spec fn checksum_of(digest: Option<Seq<char>>) -> Option<Seq<char>> {
    match digest {
        Some(d) => if starts_with(d, "sha256:"@) {
            Some(d.subrange(7, d.len() as int))
        } else {
            None
        },
        None => None,
    }
}

impl ReleaseAsset {
    /// An asset named `name`, downloadable from `browser_download_url`, with
    /// the release metadata's `digest` (`sha256:<hex>`), if any.
    pub fn new(name: String, browser_download_url: String, digest: Option<String>) -> (r:
        ReleaseAsset)
        ensures
            r.spec_name() == name@,
            r.spec_url() == browser_download_url@,
            r.spec_digest() == (match digest {
                Some(d) => Some(d@),
                None => None,
            }),
    {
        ReleaseAsset { name, browser_download_url, digest }
    }

    /// The asset's file name.
    pub closed spec fn spec_name(&self) -> Seq<char> {
        self.name@
    }

    /// Where the asset is downloaded from.
    pub closed spec fn spec_url(&self) -> Seq<char> {
        self.browser_download_url@
    }

    /// The digest field of the release metadata.
    pub closed spec fn spec_digest(&self) -> Option<Seq<char>> {
        match self.digest {
            Some(d) => Some(d@),
            None => None,
        }
    }

    /// The asset's file name.
    pub fn name(&self) -> (r: &String)
        ensures
            r@ == self.spec_name(),
    {
        &self.name
    }

    /// Where the asset is downloaded from.
    pub fn browser_download_url(&self) -> (r: &String)
        ensures
            r@ == self.spec_url(),
    {
        &self.browser_download_url
    }

    /// The SHA-256 checksum from the release metadata: the digest field
    /// without its `sha256:` prefix; `None` where there is no such field.
    pub fn checksum(&self) -> (r: Option<String>)
        ensures
            r matches Some(c) ==> checksum_of(self.spec_digest()) == Some(c@),
            r is None ==> checksum_of(self.spec_digest()) is None,
    {
        proof {
            reveal_strlit("sha256:");
        }
        match &self.digest {
            Some(d) => if has_prefix(d.as_str(), "sha256:") {
                Some(skip_chars(d.as_str(), 7))
            } else {
                None
            },
            None => None,
        }
    }
}

/// Why an asset cannot be fetched from a release.
#[derive(Debug, Clone, Copy, PartialEq, Eq, Structural)]
pub enum AssetError {
    /// No asset of that name is in the release.
    NotInRelease,
    /// The metadata gives no SHA-256 checksum for it.
    NoChecksum,
    /// The metadata gives an empty checksum for it.
    EmptyChecksum,
}

/// The last of `assets` named `name`, if any.
pub open spec fn last_named(assets: Seq<ReleaseAsset>, name: Seq<char>) -> Option<ReleaseAsset>
    decreases assets.len(),
{
    if assets.len() == 0 {
        None
    } else if assets.last().spec_name() == name {
        Some(assets.last())
    } else {
        last_named(assets.drop_last(), name)
    }
}

/// The checksum that an asset's metadata gives, or why there is none.
pub open spec fn checksum_outcome(asset: Option<ReleaseAsset>) -> Result<Seq<char>, AssetError> {
    match asset {
        None => Err(AssetError::NotInRelease),
        Some(a) => match checksum_of(a.spec_digest()) {
            None => Err(AssetError::NoChecksum),
            Some(c) => if c.len() == 0 {
                Err(AssetError::EmptyChecksum)
            } else {
                Ok(c)
            },
        },
    }
}

/// The assets of a release, by name. Where two assets share a name, the later
/// one counts. They are kept in order in a `Vec` and looked up from the end:
/// for a `HashMap` keyed by `String`, vstd's specification gives nothing
/// usable, so lookups there could not be proved.
pub struct GithubRelease {
    assets: Vec<ReleaseAsset>,
}

impl GithubRelease {
    /// The asset named `name`, if the release has one.
    pub closed spec fn spec_asset(&self, name: Seq<char>) -> Option<ReleaseAsset> {
        last_named(self.assets@, name)
    }

    /// A release holding `assets`; where two share a name, the later one counts.
    pub fn from_assets(assets: Vec<ReleaseAsset>) -> (r: GithubRelease)
        ensures
            forall|name: Seq<char>| #[trigger] r.spec_asset(name) == last_named(assets@, name),
    {
        GithubRelease { assets }
    }

    /// The asset named `name`, if the release has one.
    pub fn asset(&self, name: &str) -> (r: Option<&ReleaseAsset>)
        ensures
            r matches Some(a) ==> self.spec_asset(name@) == Some(*a),
            r is None ==> self.spec_asset(name@) is None,
    {
        let mut i: usize = self.assets.len();
        assert(self.assets@.subrange(0, i as int) == self.assets@);
        while i > 0
            invariant
                i <= self.assets@.len(),
                last_named(self.assets@, name@) == last_named(self.assets@.subrange(0, i as int), name@),
            decreases i,
        {
            let ghost prefix = self.assets@.subrange(0, i as int);
            assert(prefix.drop_last() == self.assets@.subrange(0, i - 1));
            if same_text(self.assets[i - 1].name.as_str(), name) {
                return Some(&self.assets[i - 1]);
            }
            i = i - 1;
        }
        None
    }

    /// The checksum to hold the asset named `name` to: an error where the
    /// release has no such asset, or its metadata gives no checksum or an
    /// empty one.
    pub fn asset_checksum(&self, name: &str) -> (r: Result<String, AssetError>)
        ensures
            r matches Ok(c) ==> checksum_outcome(self.spec_asset(name@)) == Ok::<
                Seq<char>,
                AssetError,
            >(c@),
            r matches Err(e) ==> checksum_outcome(self.spec_asset(name@)) == Err::<
                Seq<char>,
                AssetError,
            >(e),
    {
        match self.asset(name) {
            None => Err(AssetError::NotInRelease),
            Some(a) => match a.checksum() {
                None => Err(AssetError::NoChecksum),
                Some(c) => if c.unicode_len() == 0 {
                    Err(AssetError::EmptyChecksum)
                } else {
                    Ok(c)
                },
            },
        }
    }
}

/// A downloaded asset's location, to be linked or copied into a build.
pub struct AssetPath {
    path: String,
}

impl AssetPath {
    /// The asset at `path`.
    pub fn new(path: String) -> (r: AssetPath)
        ensures
            r.spec_path() == path@,
    {
        AssetPath { path }
    }

    /// The location.
    pub closed spec fn spec_path(&self) -> Seq<char> {
        self.path@
    }

    /// The location.
    pub fn path(&self) -> (r: &String)
        ensures
            r@ == self.spec_path(),
    {
        &self.path
    }
}

} // verus!
