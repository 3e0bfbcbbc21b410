use depac::builds::{get_rpc_version, srcinfo_version, version_warning};
use depac::cache::removal_reason;
use depac::failure::Failure;
use depac::reply::{AurResult, Origin, RpcResponse, VersionOrder};

fn text(s: &str) -> String {
    s.to_string()
}

#[test]
fn a_version_is_put_together() {
    let info = "pkgbase = yay\n\tpkgdesc = an = b\n\tpkgver = 12.0\n\tpkgrel = 1\n\tpkgver = 9\n";
    assert_eq!(srcinfo_version(info), Ok(text("12.0-1")));
    let info = "pkgver = 12.0\n\tepoch = 2\n pkgrel = 1.1\n";
    assert_eq!(srcinfo_version(info), Ok(text("2:12.0-1.1")));
    assert_eq!(srcinfo_version("pkgver = a = b\npkgrel = 1"), Ok(text("a = b-1")));
}

#[test]
fn a_version_needs_its_parts() {
    assert_eq!(srcinfo_version("pkgrel = 1"), Err(Failure::NoPkgver));
    assert_eq!(srcinfo_version("pkgver = 1"), Err(Failure::NoPkgrel));
    assert_eq!(srcinfo_version("pkgver=1\npkgrel = 1"), Err(Failure::NoPkgver));
    assert_eq!(srcinfo_version(""), Err(Failure::NoPkgver));
}

#[test]
fn only_a_newer_version_is_warned_of() {
    assert_eq!(
        version_warning("yay", "2-1", "1-1", VersionOrder::Newer),
        Some(text("Local yay newer than RPC (2-1 <- 1-1), try disabling RPC"))
    );
    assert_eq!(version_warning("yay", "1-1", "1-1", VersionOrder::Same), None);
    assert_eq!(version_warning("yay", "1-1", "2-1", VersionOrder::Older), None);
}

fn response(resultcount: usize, versions: &[&str]) -> RpcResponse {
    RpcResponse {
        resultcount,
        results: versions.iter().map(|version| AurResult { version: text(version) }).collect(),
    }
}

#[test]
fn the_aur_gives_the_first_version() {
    let artifact = text("yay");
    assert_eq!(get_rpc_version(&artifact, &response(2, &["1-1", "2-1"])), Ok(text("1-1")));
    assert_eq!(
        get_rpc_version(&artifact, &response(0, &["1-1"])),
        Err(Failure::NoRpcVersion { artifact: text("yay") })
    );
    assert_eq!(
        get_rpc_version(&artifact, &response(1, &[])),
        Err(Failure::NoRpcResult { artifact: text("yay") })
    );
}

#[test]
fn a_repository_from_elsewhere_is_of_no_use() {
    let url = text("https://x/a.git");
    assert_eq!(removal_reason(&Origin::Url { url: url.clone() }, &url), None);
    assert_eq!(
        removal_reason(&Origin::Url { url: text("old") }, &url),
        Some(text("git URL changed: old -> https://x/a.git"))
    );
    assert_eq!(
        removal_reason(&Origin::UrlUnreadable { cause: text("e") }, &url),
        Some(text("could not read origin URL: e"))
    );
    assert_eq!(
        removal_reason(&Origin::NoRemote { cause: text("e") }, &url),
        Some(text("could not find origin remote: e"))
    );
    assert_eq!(
        removal_reason(&Origin::NoRepository { cause: text("e") }, &url),
        Some(text("invalid Git repository: e"))
    );
}
