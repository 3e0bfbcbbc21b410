use depac::cache::{cache_root, CacheRoot};
use depac::failure::Failure;
use depac::session::preflight;

fn text(s: &str) -> String {
    s.to_string()
}

#[test]
fn failures_say_what_went_wrong() {
    let cases = vec![
        (Failure::Root, "depac must not be run as root, makepkg disallows it"),
        (Failure::NoConfiguration, "Configuration path not given"),
        (Failure::BadConfiguration { cause: text("why") }, "Failed to parse config: why"),
        (Failure::Outside { cause: text("why") }, "why"),
        (Failure::NotRemoved, "Failed to remove one or more packages"),
        (
            Failure::NotDemoted { package: text("a"), cause: text("why") },
            "Could not mark a as a dependency: why",
        ),
        (
            Failure::NotPromoted { package: text("a"), cause: text("why") },
            "Could not mark a as explicitly installed: why",
        ),
        (Failure::NotUpgraded, "System upgrade failed"),
        (Failure::NotInstalled, "Installation/upgrade failed"),
        (Failure::NoHome, "Bruh"),
        (
            Failure::NoRpcVersion { artifact: text("a") },
            "Could not retrieve RPC version for a",
        ),
        (Failure::NoRpcResult { artifact: text("a") }, "RPC returned no result for a"),
        (Failure::NoPkgver, "Missing pkgver"),
        (Failure::NoPkgrel, "Missing pkgrel"),
        (
            Failure::NoInstalledVersion { artifact: text("a") },
            "Could not determine installed version of a",
        ),
        (Failure::NotBuilt { path: text("/c/a") }, "makepkg failed in /c/a"),
        (Failure::NotInspected { file: text("f") }, "Could not inspect package f"),
        (
            Failure::ArtifactsMissing { path: text("/c/a") },
            "Could not find every artifact built in /c/a",
        ),
        (
            Failure::ArtifactsNotInstalled { path: text("/c/a") },
            "Failed to install artifacts for /c/a",
        ),
    ];
    for (failure, message) in cases {
        assert_eq!(failure.message(), message);
        assert_eq!(failure.copy(), failure);
    }
}

#[test]
fn the_superuser_is_turned_away_first() {
    assert_eq!(preflight(true, None), Err(Failure::Root));
    assert_eq!(preflight(true, Some(text("c.json"))), Err(Failure::Root));
    assert_eq!(preflight(false, None), Err(Failure::NoConfiguration));
    assert_eq!(preflight(false, Some(text("c.json"))), Ok(text("c.json")));
}

#[test]
fn the_cache_directory_counts_before_the_home_directory() {
    assert_eq!(cache_root(Some("x"), Some("h")), Ok(CacheRoot::Xdg("x")));
    assert_eq!(cache_root(Some("x"), None), Ok(CacheRoot::Xdg("x")));
    assert_eq!(cache_root(None, Some("h")), Ok(CacheRoot::Home("h")));
    assert_eq!(cache_root::<&str>(None, None), Err(Failure::NoHome));
}
