use depac::config::{
    default_elevation, default_packages, default_true, get_aur_git, rpc_url, Calibre, Config,
    Pkgbuild, Settings,
};

fn list(names: &[&str]) -> Vec<String> {
    names.iter().map(|name| name.to_string()).collect()
}

fn base(name: &str, artifacts: &[&str], git: Option<&str>, rpc: Option<bool>) -> Pkgbuild {
    Pkgbuild {
        base: name.to_string(),
        artifacts: list(artifacts),
        git: git.map(|git| git.to_string()),
        rpc,
    }
}

#[test]
fn a_name_is_short_for_a_base() {
    let simple = Calibre::Simple("glsl_analyzer-bin".to_string()).complexify();
    assert_eq!(simple, base("glsl_analyzer-bin", &["glsl_analyzer-bin"], None, None));
    let complex = Calibre::Complex(base("glsl_analyzer-bin", &[], None, None)).complexify();
    assert_eq!(simple, complex);
}

#[test]
fn given_artifacts_are_kept() {
    let nvidia = &["nvidia-utils-beta", "opencl-nvidia-beta", "nvidia-settings-beta"];
    let whole = Calibre::Complex(base("nvidia-utils-beta", nvidia, Some("url"), Some(true)));
    assert_eq!(
        whole.complexify(),
        base("nvidia-utils-beta", nvidia, Some("url"), Some(true))
    );
    let filled = Calibre::Complex(base("depac-git", &[], Some("url"), Some(false))).complexify();
    assert_eq!(filled, base("depac-git", &["depac-git"], Some("url"), Some(false)));
}

#[test]
fn repositories_are_on_the_aur_by_default() {
    assert_eq!(get_aur_git("yay"), "https://aur.archlinux.org/yay.git");
    assert_eq!(rpc_url(), "https://aur.archlinux.org/rpc/v5/info");
    assert_eq!(base("yay", &[], None, None).url(), "https://aur.archlinux.org/yay.git");
    assert_eq!(base("yay", &[], Some("https://x/y.git"), None).url(), "https://x/y.git");
}

#[test]
fn another_repository_turns_the_rpc_off() {
    assert!(base("a", &[], None, None).uses_rpc());
    assert!(!base("a", &[], Some("url"), None).uses_rpc());
    assert!(base("a", &[], Some("url"), Some(true)).uses_rpc());
    assert!(!base("a", &[], None, Some(false)).uses_rpc());
}

#[test]
fn settings_have_defaults() {
    let settings = Settings::default();
    assert_eq!(settings.elevation, "sudo");
    assert_eq!(settings.package_removal_confirmation_count, 0);
    assert!(settings.default_true_confirmation);
    assert_eq!(default_elevation(), "sudo");
    assert_eq!(default_packages(), 0);
    assert!(default_true());
    assert_eq!(settings.clone(), settings);
}

#[test]
fn artifacts_are_desired_after_packages() {
    let config = Config {
        packages: list(&["kitty", "mpv"]),
        pkgbuilds: vec![
            Calibre::Simple("a".to_string()),
            Calibre::Complex(base("b", &["b1", "b2"], None, None)),
        ],
        ignore: list(&["c"]),
        settings: Settings::default(),
    };
    let plan = config.normalise();
    assert_eq!(plan.desired(), list(&["kitty", "mpv", "a", "b1", "b2"]));
    assert_eq!(
        plan.pkgbuilds,
        vec![base("a", &["a"], None, None), base("b", &["b1", "b2"], None, None)]
    );
    assert_eq!(plan.ignore, list(&["c"]));
    assert_eq!(plan.packages, list(&["kitty", "mpv"]));
}
