use maplibre_native::{checksum_matches, AssetError, AssetPath, GithubRelease, ReleaseAsset};

fn asset(name: &str, digest: Option<&str>) -> ReleaseAsset {
    ReleaseAsset::new(
        name.to_string(),
        format!("https://example.org/{name}"),
        digest.map(|d| d.to_string()),
    )
}

#[test]
fn checksum_strips_prefix() {
    assert_eq!(asset("a", Some("sha256:abcd")).checksum(), Some("abcd".to_string()));
    assert_eq!(asset("a", Some("md5:abcd")).checksum(), None);
    assert_eq!(asset("a", None).checksum(), None);
}

#[test]
fn sha256_of_known_input() {
    let abc = "ba7816bf8f01cfea414140de5dae2223b00361a396177a9cb410ff61f20015ad";
    assert!(checksum_matches(b"abc", abc));
    assert!(!checksum_matches(b"abd", abc));
    assert!(!checksum_matches(b"abc", "abc"));
    assert!(checksum_matches(b"", "e3b0c44298fc1c149afbf4c8996fb92427ae41e4649b934ca495991b7852b855"));
}

#[test]
fn release_lookup_and_checksum_errors() {
    let release = GithubRelease::from_assets(vec![
        asset("lib.a", Some("sha256:1111")),
        asset("headers.tar.gz", None),
        asset("empty.bin", Some("sha256:")),
        asset("lib.a", Some("sha256:2222")),
    ]);
    assert_eq!(release.asset("lib.a").unwrap().browser_download_url(), "https://example.org/lib.a");
    assert_eq!(release.asset_checksum("lib.a"), Ok("2222".to_string()));
    assert_eq!(release.asset_checksum("missing"), Err(AssetError::NotInRelease));
    assert_eq!(release.asset_checksum("headers.tar.gz"), Err(AssetError::NoChecksum));
    assert_eq!(release.asset_checksum("empty.bin"), Err(AssetError::EmptyChecksum));
    assert!(release.asset("missing").is_none());
}

#[test]
fn asset_path_keeps_location() {
    let p = AssetPath::new("/cache/lib.a".to_string());
    assert_eq!(p.path(), "/cache/lib.a");
}
