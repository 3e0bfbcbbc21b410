use depac::action::{Action, Command};

fn list(names: &[&str]) -> Vec<String> {
    names.iter().map(|name| name.to_string()).collect()
}

fn text(s: &str) -> String {
    s.to_string()
}

fn command(program: &str, args: &[&str], capture: bool) -> Option<Command> {
    Some(Command { program: text(program), args: list(args), base: None, auth: None, capture })
}

fn in_base(args: &[&str]) -> Option<Command> {
    Some(Command {
        program: text("makepkg"),
        args: list(args),
        base: Some(text("yay")),
        auth: None,
        capture: true,
    })
}

#[test]
fn queries_need_no_elevation() {
    let cases = vec![
        (Action::ListOrphans, vec!["-Qtdq"]),
        (Action::ListExplicit, vec!["-Qeq"]),
        (Action::ListInstalled, vec!["-Qq"]),
        (Action::QueryPackage { package: text("a") }, vec!["-Qi", "a"]),
        (Action::QueryVersion { artifact: text("a") }, vec!["-Q", "a"]),
        (Action::InspectFile { file: text("/f.zst") }, vec!["-Qp", "/f.zst"]),
    ];
    for (action, args) in cases {
        assert_eq!(action.command("doas"), command("pacman", &args, true));
    }
}

#[test]
fn changes_are_elevated() {
    let mark = Action::MarkDependency { package: text("a"), required_by: list(&["b"]) };
    assert_eq!(mark.command("doas"), command("doas", &["pacman", "-D", "--asdep", "a"], true));
    let mark = Action::MarkExplicit { package: text("a") };
    assert_eq!(mark.command("sudo"), command("sudo", &["pacman", "-D", "--asexplicit", "a"], true));
    let remove = Action::Remove { packages: list(&["a", "b"]) };
    assert_eq!(
        remove.command("doas"),
        command("doas", &["pacman", "-Rns", "--noconfirm", "a", "b"], false)
    );
    let upgrade = Action::Upgrade { packages: list(&[]) };
    assert_eq!(upgrade.command("doas"), command("doas", &["pacman", "-Syu", "--noconfirm"], false));
    let upgrade = Action::Upgrade { packages: list(&["a"]) };
    assert_eq!(
        upgrade.command("doas"),
        command("doas", &["pacman", "-Syu", "--noconfirm", "a"], false)
    );
    let install = Action::InstallFiles { base: text("yay"), files: list(&["f", "g"]) };
    assert_eq!(
        install.command("doas"),
        command("doas", &["pacman", "-U", "--noconfirm", "f", "g"], false)
    );
}

#[test]
fn makepkg_runs_in_the_repository() {
    let base = || text("yay");
    assert_eq!(
        Action::Prepare { base: base() }.command("doas"),
        in_base(&["--nobuild", "--noconfirm"])
    );
    assert_eq!(
        Action::PrintSrcinfo { base: base() }.command("doas"),
        in_base(&["--printsrcinfo"])
    );
    assert_eq!(Action::ListBuilt { base: base() }.command("doas"), in_base(&["--packagelist"]));
    let build = Action::Build { base: base(), reason: text("new clone") };
    assert_eq!(
        build.command("doas"),
        Some(Command {
            program: text("makepkg"),
            args: list(&["-s", "--noconfirm"]),
            base: Some(base()),
            auth: Some(text("doas")),
            capture: false,
        })
    );
}

#[test]
fn the_rest_is_no_command() {
    let rest = vec![
        Action::Confirm { packages: list(&["a"]), default: true },
        Action::OpenCache,
        Action::NextEntry,
        Action::InspectOrigin,
        Action::RemoveEntry { reason: text("r") },
        Action::Locate { base: text("a") },
        Action::CloneRepository { base: text("a"), url: text("u") },
        Action::QueryRpc { artifact: text("a") },
        Action::UpdateRepository { base: text("a") },
        Action::CompareVersions { artifact: text("a"), installed: text("1"), version: text("2") },
        Action::Complete { rpc_checked: 1, git_checked: 2 },
    ];
    for action in rest {
        assert_eq!(action.command("sudo"), None);
    }
}
