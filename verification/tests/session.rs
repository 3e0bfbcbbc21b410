use depac::action::Action;
use depac::config::{Calibre, Config, Pkgbuild, Settings};
use depac::failure::Failure;
use depac::reply::{AurResult, Origin, Reply, RpcResponse, VersionOrder};
use depac::session::Session;

fn text(s: &str) -> String {
    s.to_string()
}

fn list(names: &[&str]) -> Vec<String> {
    names.iter().map(|name| name.to_string()).collect()
}

fn config(packages: &[&str], pkgbuilds: Vec<Calibre>, ignore: &[&str], limit: u32) -> Config {
    Config {
        packages: list(packages),
        pkgbuilds,
        ignore: list(ignore),
        settings: Settings {
            elevation: text("sudo"),
            package_removal_confirmation_count: limit,
            default_true_confirmation: true,
        },
    }
}

fn begin(config: Config) -> Session {
    Session::begin(config.normalise())
}

/// Checks what is waited for, and answers it.
fn tell(session: Session, expected: Action, reply: Reply) -> Session {
    assert_eq!(session.pending(), expected);
    session.step(reply)
}

fn said(output: &str) -> Reply {
    Reply::Captured(Ok(text(output)))
}

fn failed() -> Reply {
    Reply::Captured(Err(text("no")))
}

fn exited(success: bool) -> Reply {
    Reply::Exited(Ok(success))
}

fn finished() -> Reply {
    Reply::Finished(Ok(()))
}

fn answered(line: &str) -> Reply {
    Reply::Answered(Ok(text(line)))
}

fn entry(name: &str) -> Reply {
    Reply::Entry(Ok(Some(text(name))))
}

fn version(number: &str) -> Reply {
    Reply::Rpc(Ok(RpcResponse {
        resultcount: 1,
        results: vec![AurResult { version: text(number) }],
    }))
}

fn located(present: bool) -> Reply {
    Reply::Located { path: text("/cache/base"), present }
}

fn explicit() -> Action {
    Action::ListExplicit
}

fn fails_with(session: &Session, failure: Failure) {
    assert_eq!(session.pending(), Action::Fail { failure });
}

/// A run that has come to the packages to install.
fn at_install(config: Config) -> Session {
    let session = begin(config);
    let session = tell(session, Action::ListOrphans, failed());
    tell(session, explicit(), said(""))
}

/// A run without packages that has come to the cache.
fn at_cache(pkgbuilds: Vec<Calibre>) -> Session {
    let session = at_install(config(&[], pkgbuilds, &[], 0));
    let session = tell(session, explicit(), said(""));
    let session = tell(session, Action::ListInstalled, said(""));
    let session = tell(session, Action::Upgrade { packages: list(&[]) }, exited(true));
    tell(session, Action::OpenCache, finished())
}

/// A run without packages that has come to the bases.
fn at_bases(pkgbuilds: Vec<Calibre>) -> Session {
    tell(at_cache(pkgbuilds), Action::NextEntry, Reply::Entry(Ok(None)))
}

fn pair(rpc: Option<bool>) -> Vec<Calibre> {
    vec![Calibre::Complex(Pkgbuild {
        base: text("base"),
        artifacts: list(&["one", "two"]),
        git: None,
        rpc,
    })]
}

fn locate() -> Action {
    Action::Locate { base: text("base") }
}

fn query(artifact: &str) -> Action {
    Action::QueryVersion { artifact: text(artifact) }
}

fn compare(artifact: &str, installed: &str, version: &str) -> Action {
    Action::CompareVersions {
        artifact: text(artifact),
        installed: text(installed),
        version: text(version),
    }
}

fn build(reason: &str) -> Action {
    Action::Build { base: text("base"), reason: text(reason) }
}

fn update() -> Action {
    Action::UpdateRepository { base: text("base") }
}

#[test]
fn a_small_run_goes_through() {
    let session = begin(config(&["kitty", "mpv", "git"], vec![], &["kept"], 5));
    let session = tell(session, Action::ListOrphans, said("old-dep\nkept"));
    let session = tell(session, Action::Remove { packages: list(&["old-dep"]) }, exited(true));
    let session = tell(session, explicit(), said("kitty\nvim\nkept\nnano\nlibx"));
    let ask = |package: &str| Action::QueryPackage { package: text(package) };
    let session = tell(session, ask("vim"), said("Required By : None"));
    let session = tell(session, ask("nano"), said("Required By : vim"));
    let session = tell(session, ask("libx"), said("Required By : kitty vim"));
    let mark = Action::MarkDependency { package: text("libx"), required_by: list(&["kitty", "vim"]) };
    let session = tell(session, mark, said(""));
    let remove = Action::Remove { packages: list(&["vim", "nano"]) };
    let session = tell(session, remove, exited(true));
    let session = tell(session, explicit(), said("kitty\nkept"));
    let session = tell(session, Action::ListInstalled, said("kitty\nkept\ngit\nlibx"));
    let session = tell(session, Action::MarkExplicit { package: text("git") }, said(""));
    let session = tell(session, Action::Upgrade { packages: list(&["mpv"]) }, exited(true));
    let session = tell(session, Action::OpenCache, finished());
    let session = tell(session, Action::NextEntry, Reply::Entry(Ok(None)));
    assert_eq!(session.pending(), Action::Complete { rpc_checked: 0, git_checked: 0 });
}

#[test]
fn a_settled_system_is_only_upgraded() {
    let session = begin(config(&["kitty"], vec![], &["kept"], 0));
    let session = tell(session, Action::ListOrphans, said(""));
    let session = tell(session, explicit(), said("kept\nkitty"));
    let session = tell(session, explicit(), said("kept\nkitty"));
    let session = tell(session, Action::ListInstalled, said("kept\nkitty"));
    assert_eq!(session.pending(), Action::Upgrade { packages: list(&[]) });
}

#[test]
fn an_ignored_package_is_not_installed() {
    let session = begin(config(&["b", "a"], vec![], &["a"], 0));
    let session = tell(session, Action::ListOrphans, failed());
    let session = tell(session, explicit(), said("b"));
    let session = tell(session, explicit(), said("b"));
    let session = tell(session, Action::ListInstalled, said("b"));
    let upgrade = Action::Upgrade { packages: list(&[]) };
    let command = upgrade.command("sudo").unwrap();
    assert_eq!(command.program, "sudo");
    assert_eq!(command.args, list(&["pacman", "-Syu", "--noconfirm"]));
    let session = tell(session, upgrade, exited(false));
    fails_with(&session, Failure::NotUpgraded);
    assert_eq!(Failure::NotUpgraded.message(), "System upgrade failed");
}

#[test]
fn an_ignored_package_is_not_marked() {
    let session = at_install(config(&["a", "b"], vec![], &["a"], 0));
    let session = tell(session, explicit(), said(""));
    let session = tell(session, Action::ListInstalled, said("a\nb"));
    let session = tell(session, Action::MarkExplicit { package: text("b") }, said(""));
    assert_eq!(session.pending(), Action::Upgrade { packages: list(&[]) });
}

#[test]
fn an_ignored_artifact_is_built_with_its_base() {
    let session = at_install(config(&[], pair(None), &["one"], 0));
    let session = tell(session, explicit(), said(""));
    let session = tell(session, Action::ListInstalled, said(""));
    let session = tell(session, Action::Upgrade { packages: list(&[]) }, exited(true));
    let session = tell(session, Action::OpenCache, finished());
    let session = tell(session, Action::NextEntry, Reply::Entry(Ok(None)));
    let session = tell(session, locate(), located(true));
    let session = tell(session, Action::QueryRpc { artifact: text("one") }, version("1-1"));
    let session = tell(session, query("one"), failed());
    let session = tell(session, update(), finished());
    assert_eq!(session.pending(), build("one is not installed"));
}

#[test]
fn artifacts_of_bases_are_kept() {
    let session = begin(config(&[], pair(None), &[], 9));
    let session = tell(session, Action::ListOrphans, said(""));
    let session = tell(session, explicit(), said("one\ntwo\nbase"));
    assert_eq!(session.pending(), Action::QueryPackage { package: text("base") });
}

#[test]
fn many_removals_are_confirmed() {
    let confirm = |packages: &[&str]| Action::Confirm { packages: list(packages), default: true };
    let session = begin(config(&[], vec![], &[], 1));
    let session = tell(session, Action::ListOrphans, said("a\nb"));
    let session = tell(session, confirm(&["a", "b"]), answered("n\n"));
    let session = tell(session, explicit(), said("c\nd"));
    let session = tell(session, confirm(&["c", "d"]), answered("\n"));
    assert_eq!(session.pending(), Action::QueryPackage { package: text("c") });
}

#[test]
fn a_refusal_removes_nothing() {
    let session = begin(config(&["x"], vec![], &[], 0));
    let session = tell(session, Action::ListOrphans, said(""));
    let session = tell(session, explicit(), said("c"));
    let confirm = Action::Confirm { packages: list(&["c"]), default: true };
    let session = tell(session, confirm, answered("no"));
    let session = tell(session, explicit(), said("c"));
    assert_eq!(session.pending(), Action::ListInstalled);
}

#[test]
fn a_package_is_marked_only_with_consent() {
    let confirm = || Action::Confirm { packages: list(&["c"]), default: true };
    let asked = || {
        let session = begin(config(&[], vec![], &[], 0));
        let session = tell(session, Action::ListOrphans, said(""));
        tell(session, explicit(), said("c"))
    };
    let session = tell(asked(), confirm(), answered("y"));
    let query = Action::QueryPackage { package: text("c") };
    let session = tell(session, query, said("Required By : d"));
    let mark = Action::MarkDependency { package: text("c"), required_by: list(&["d"]) };
    assert_eq!(session.pending(), mark);

    let session = tell(asked(), confirm(), answered("n"));
    let session = tell(session, explicit(), said("c"));
    let session = tell(session, Action::ListInstalled, said("c\nd"));
    assert_eq!(session.pending(), Action::Upgrade { packages: list(&[]) });
}

#[test]
fn an_agreement_removes_the_orphans() {
    let session = begin(config(&[], vec![], &[], 0));
    let session = tell(session, Action::ListOrphans, said("a"));
    let confirm = Action::Confirm { packages: list(&["a"]), default: true };
    let session = tell(session, confirm, answered("YES"));
    let session = tell(session, Action::Remove { packages: list(&["a"]) }, exited(false));
    fails_with(&session, Failure::NotRemoved);
}

#[test]
fn nothing_is_removed_when_all_is_held_back() {
    let session = begin(config(&[], vec![], &[], 3));
    let session = tell(session, Action::ListOrphans, said(""));
    let session = tell(session, explicit(), said("a"));
    let ask = Action::QueryPackage { package: text("a") };
    let session = tell(session, ask, said("Required By : b"));
    let mark = Action::MarkDependency { package: text("a"), required_by: list(&["b"]) };
    let session = tell(session, mark, said(""));
    assert_eq!(session.pending(), explicit());
}

#[test]
fn a_package_that_cannot_be_marked_ends_the_run() {
    let session = begin(config(&[], vec![], &[], 3));
    let session = tell(session, Action::ListOrphans, said(""));
    let session = tell(session, explicit(), said("a"));
    let ask = Action::QueryPackage { package: text("a") };
    let session = tell(session, ask, said("Required By : b"));
    let mark = Action::MarkDependency { package: text("a"), required_by: list(&["b"]) };
    let session = tell(session, mark, failed());
    fails_with(&session, Failure::NotDemoted { package: text("a"), cause: text("no") });

    let session = at_install(config(&["a"], vec![], &[], 0));
    let session = tell(session, explicit(), said(""));
    let session = tell(session, Action::ListInstalled, said("a"));
    let session = tell(session, Action::MarkExplicit { package: text("a") }, failed());
    fails_with(&session, Failure::NotPromoted { package: text("a"), cause: text("no") });
}

#[test]
fn an_upgrade_that_fails_ends_the_run() {
    let session = at_install(config(&["a"], vec![], &[], 0));
    let session = tell(session, explicit(), said(""));
    let session = tell(session, Action::ListInstalled, said(""));
    let session = tell(session, Action::Upgrade { packages: list(&["a"]) }, exited(false));
    fails_with(&session, Failure::NotInstalled);

    let session = at_install(config(&[], vec![], &[], 0));
    let session = tell(session, explicit(), said(""));
    let session = tell(session, Action::ListInstalled, said(""));
    let session = tell(session, Action::Upgrade { packages: list(&[]) }, exited(false));
    fails_with(&session, Failure::NotUpgraded);
}

#[test]
fn an_outside_error_ends_the_run() {
    let session = begin(config(&[], vec![], &[], 0));
    let session = tell(session, Action::ListOrphans, failed());
    let session = tell(session, explicit(), failed());
    fails_with(&session, Failure::Outside { cause: text("no") });
    let session = session.step(said("more"));
    fails_with(&session, Failure::Outside { cause: text("no") });
}

#[test]
fn other_replies_change_nothing() {
    let session = begin(config(&[], vec![], &[], 0));
    let session = session.step(exited(false));
    let session = session.step(Reply::Compared(VersionOrder::Older));
    assert_eq!(session.pending(), Action::ListOrphans);
}

#[test]
fn the_cache_is_cleared_of_what_is_not_configured() {
    let session = at_cache(pair(None));
    let session = tell(session, Action::NextEntry, entry("gone"));
    let session = tell(
        session,
        Action::RemoveEntry { reason: text("removed explicitly") },
        finished(),
    );
    let session = tell(session, Action::NextEntry, entry("base"));
    let origin = |url: &str| Reply::Origin(Origin::Url { url: text(url) });
    let session = tell(
        session,
        Action::InspectOrigin,
        origin("https://aur.archlinux.org/base.git"),
    );
    let session = tell(session, Action::NextEntry, entry("base"));
    let session = tell(session, Action::InspectOrigin, origin("https://old"));
    let reason = "git URL changed: https://old -> https://aur.archlinux.org/base.git";
    let session = tell(session, Action::RemoveEntry { reason: text(reason) }, finished());
    let session = tell(session, Action::NextEntry, Reply::Entry(Ok(None)));
    assert_eq!(session.pending(), locate());
}

#[test]
fn a_new_repository_is_cloned_and_built() {
    let session = tell(at_bases(pair(None)), locate(), located(false));
    let clone = Action::CloneRepository {
        base: text("base"),
        url: text("https://aur.archlinux.org/base.git"),
    };
    let session = tell(session, clone, finished());
    let session = tell(session, build("new clone"), exited(true));
    let listing = Action::ListBuilt { base: text("base") };
    let session = tell(session, listing, said("/c/one.zst\n/c/debug.zst\n/c/two.zst"));
    let inspect = |file: &str| Action::InspectFile { file: text(file) };
    let session = tell(session, inspect("/c/one.zst"), said("one 1-1"));
    let session = tell(session, inspect("/c/debug.zst"), said("one-debug 1-1"));
    let session = tell(session, inspect("/c/two.zst"), said("two 1-1"));
    let install = Action::InstallFiles {
        base: text("base"),
        files: list(&["/c/one.zst", "/c/two.zst"]),
    };
    let session = tell(session, install, exited(true));
    assert_eq!(session.pending(), Action::Complete { rpc_checked: 1, git_checked: 0 });
}

#[test]
fn a_current_base_is_not_built() {
    let session = tell(at_bases(pair(None)), locate(), located(true));
    let session = tell(session, Action::QueryRpc { artifact: text("one") }, version("2-1"));
    let session = tell(session, query("one"), said("one 2-1"));
    let session = tell(session, compare("one", "2-1", "2-1"), Reply::Compared(VersionOrder::Same));
    let session = tell(session, query("two"), said("two 3-1"));
    let session = tell(session, compare("two", "3-1", "2-1"), Reply::Compared(VersionOrder::Newer));
    assert_eq!(session.pending(), Action::Complete { rpc_checked: 1, git_checked: 0 });
}

#[test]
fn an_older_artifact_is_rebuilt_from_an_updated_repository() {
    let session = tell(at_bases(pair(None)), locate(), located(true));
    let session = tell(session, Action::QueryRpc { artifact: text("one") }, version("2-1"));
    let session = tell(session, query("one"), said("one 1-1"));
    let session = tell(session, compare("one", "1-1", "2-1"), Reply::Compared(VersionOrder::Older));
    let session = tell(session, update(), finished());
    assert_eq!(session.pending(), build("version: 1-1 <- 2-1"));
}

#[test]
fn a_missing_artifact_is_built_without_another_update() {
    let session = tell(at_bases(pair(Some(false))), locate(), located(true));
    let session = tell(session, update(), finished());
    let session = tell(session, Action::Prepare { base: text("base") }, said(""));
    let session = tell(
        session,
        Action::PrintSrcinfo { base: text("base") },
        said("pkgver = 2\npkgrel = 1\nepoch = 1"),
    );
    let session = tell(session, query("one"), said("one 1:2-1"));
    let session = tell(
        session,
        compare("one", "1:2-1", "1:2-1"),
        Reply::Compared(VersionOrder::Same),
    );
    let session = tell(session, query("two"), failed());
    assert_eq!(session.pending(), build("two is not installed"));
}

#[test]
fn both_ways_of_checking_are_counted() {
    let bases = vec![
        Calibre::Simple(text("a")),
        Calibre::Complex(Pkgbuild {
            base: text("b"),
            artifacts: vec![],
            git: Some(text("https://x/b.git")),
            rpc: None,
        }),
    ];
    let session = at_bases(bases);
    let session = tell(session, Action::Locate { base: text("a") }, located(true));
    let session = tell(session, Action::QueryRpc { artifact: text("a") }, version("1-1"));
    let session = tell(session, query("a"), said("a 1-1"));
    let session = tell(session, compare("a", "1-1", "1-1"), Reply::Compared(VersionOrder::Same));
    let session = tell(session, Action::Locate { base: text("b") }, located(true));
    let session = tell(session, Action::UpdateRepository { base: text("b") }, finished());
    let session = tell(session, Action::Prepare { base: text("b") }, said(""));
    let session = tell(
        session,
        Action::PrintSrcinfo { base: text("b") },
        said("pkgver = 1\npkgrel = 1"),
    );
    let session = tell(session, query("b"), said("b 1-1"));
    let session = tell(session, compare("b", "1-1", "1-1"), Reply::Compared(VersionOrder::Same));
    assert_eq!(session.pending(), Action::Complete { rpc_checked: 1, git_checked: 1 });
}

#[test]
fn a_build_can_fail_in_many_ways() {
    let built = || {
        let session = tell(at_bases(pair(None)), locate(), located(false));
        let clone = Action::CloneRepository {
            base: text("base"),
            url: text("https://aur.archlinux.org/base.git"),
        };
        tell(session, clone, finished())
    };
    let listing = || Action::ListBuilt { base: text("base") };
    let inspect = || Action::InspectFile { file: text("f") };

    let session = tell(built(), build("new clone"), exited(false));
    fails_with(&session, Failure::NotBuilt { path: text("/cache/base") });

    let session = tell(built(), build("new clone"), exited(true));
    let session = tell(session, listing(), said("f"));
    let session = tell(session, inspect(), said(" "));
    fails_with(&session, Failure::NotInspected { file: text("f") });

    let session = tell(built(), build("new clone"), exited(true));
    let session = tell(session, listing(), said("f"));
    let session = tell(session, inspect(), said("one 1-1"));
    fails_with(&session, Failure::ArtifactsMissing { path: text("/cache/base") });

    let session = tell(built(), build("new clone"), exited(true));
    let session = tell(session, listing(), said(""));
    fails_with(&session, Failure::ArtifactsMissing { path: text("/cache/base") });

    let session = tell(built(), build("new clone"), exited(true));
    let session = tell(session, listing(), said("f\ng"));
    let session = tell(session, inspect(), said("one 1-1"));
    let session = tell(session, Action::InspectFile { file: text("g") }, said("two 1-1"));
    let install = Action::InstallFiles { base: text("base"), files: list(&["f", "g"]) };
    let session = tell(session, install, exited(false));
    fails_with(&session, Failure::ArtifactsNotInstalled { path: text("/cache/base") });
}

#[test]
fn a_version_that_is_not_told_ends_the_run() {
    let session = tell(at_bases(pair(None)), locate(), located(true));
    let rpc = || Action::QueryRpc { artifact: text("one") };
    let empty = Reply::Rpc(Ok(RpcResponse { resultcount: 0, results: vec![] }));
    let session = tell(session, rpc(), empty);
    fails_with(&session, Failure::NoRpcVersion { artifact: text("one") });

    let session = tell(at_bases(pair(None)), locate(), located(true));
    let session = tell(session, rpc(), version("1-1"));
    let session = tell(session, query("one"), said("one"));
    fails_with(&session, Failure::NoInstalledVersion { artifact: text("one") });

    let session = tell(at_bases(pair(Some(false))), locate(), located(true));
    let session = tell(session, update(), finished());
    let session = tell(session, Action::Prepare { base: text("base") }, said(""));
    let session = tell(session, Action::PrintSrcinfo { base: text("base") }, said("pkgver = 1"));
    fails_with(&session, Failure::NoPkgrel);
}
