//! Why a run can end early.
use crate::text::Text;
use vstd::prelude::*;

verus! {

/// The model of `Failure`.
pub enum FailureView {
    Root,
    NoConfiguration,
    BadConfiguration { cause: Text },
    Outside { cause: Text },
    NotRemoved,
    NotDemoted { package: Text, cause: Text },
    NotPromoted { package: Text, cause: Text },
    NotUpgraded,
    NotInstalled,
    NoHome,
    NoRpcVersion { artifact: Text },
    NoRpcResult { artifact: Text },
    NoPkgver,
    NoPkgrel,
    NoInstalledVersion { artifact: Text },
    NotBuilt { path: Text },
    NotInspected { file: Text },
    ArtifactsMissing { path: Text },
    ArtifactsNotInstalled { path: Text },
}

/// Why a run ends early.
#[derive(Debug, PartialEq, Eq)]
pub enum Failure {
    /// The program was started by the superuser.
    Root,
    /// No configuration was named.
    NoConfiguration,
    /// The configuration cannot be read as one.
    BadConfiguration { cause: String },
    /// Something outside failed, and said why.
    Outside { cause: String },
    /// pacman did not remove the packages.
    NotRemoved,
    /// A package could not be marked as a dependency.
    NotDemoted { package: String, cause: String },
    /// A package could not be marked as explicitly installed.
    NotPromoted { package: String, cause: String },
    /// pacman did not upgrade the system.
    NotUpgraded,
    /// pacman did not upgrade the system and install packages.
    NotInstalled,
    /// There is no place for the cache.
    NoHome,
    /// The AUR does not know a package.
    NoRpcVersion { artifact: String },
    /// The AUR knows a package but says nothing of it.
    NoRpcResult { artifact: String },
    /// A source has no version.
    NoPkgver,
    /// A source has no release.
    NoPkgrel,
    /// pacman does not say which version is installed.
    NoInstalledVersion { artifact: String },
    /// makepkg did not build.
    NotBuilt { path: String },
    /// pacman does not say which package a file holds.
    NotInspected { file: String },
    /// Not every artifact was built.
    ArtifactsMissing { path: String },
    /// pacman did not install what was built.
    ArtifactsNotInstalled { path: String },
}

impl View for Failure {
    type V = FailureView;

    open spec fn view(&self) -> FailureView {
        match self {
            Failure::Root => FailureView::Root,
            Failure::NoConfiguration => FailureView::NoConfiguration,
            Failure::BadConfiguration { cause } => FailureView::BadConfiguration { cause: cause@ },
            Failure::Outside { cause } => FailureView::Outside { cause: cause@ },
            Failure::NotRemoved => FailureView::NotRemoved,
            Failure::NotDemoted { package, cause } => FailureView::NotDemoted {
                package: package@,
                cause: cause@,
            },
            Failure::NotPromoted { package, cause } => FailureView::NotPromoted {
                package: package@,
                cause: cause@,
            },
            Failure::NotUpgraded => FailureView::NotUpgraded,
            Failure::NotInstalled => FailureView::NotInstalled,
            Failure::NoHome => FailureView::NoHome,
            Failure::NoRpcVersion { artifact } => FailureView::NoRpcVersion { artifact: artifact@ },
            Failure::NoRpcResult { artifact } => FailureView::NoRpcResult { artifact: artifact@ },
            Failure::NoPkgver => FailureView::NoPkgver,
            Failure::NoPkgrel => FailureView::NoPkgrel,
            Failure::NoInstalledVersion { artifact } => FailureView::NoInstalledVersion {
                artifact: artifact@,
            },
            Failure::NotBuilt { path } => FailureView::NotBuilt { path: path@ },
            Failure::NotInspected { file } => FailureView::NotInspected { file: file@ },
            Failure::ArtifactsMissing { path } => FailureView::ArtifactsMissing { path: path@ },
            Failure::ArtifactsNotInstalled { path } => FailureView::ArtifactsNotInstalled {
                path: path@,
            },
        }
    }
}

impl FailureView {
    /// What the user is told.
    pub open spec fn text(self) -> Text {
        match self {
            FailureView::Root => "depac must not be run as root, makepkg disallows it"@,
            FailureView::NoConfiguration => "Configuration path not given"@,
            FailureView::BadConfiguration { cause } => "Failed to parse config: "@ + cause,
            FailureView::Outside { cause } => cause,
            FailureView::NotRemoved => "Failed to remove one or more packages"@,
            FailureView::NotDemoted { package, cause } => {
                "Could not mark "@ + package + " as a dependency: "@ + cause
            },
            FailureView::NotPromoted { package, cause } => {
                "Could not mark "@ + package + " as explicitly installed: "@ + cause
            },
            FailureView::NotUpgraded => "System upgrade failed"@,
            FailureView::NotInstalled => "Installation/upgrade failed"@,
            FailureView::NoHome => "Bruh"@,
            FailureView::NoRpcVersion { artifact } => {
                "Could not retrieve RPC version for "@ + artifact
            },
            FailureView::NoRpcResult { artifact } => "RPC returned no result for "@ + artifact,
            FailureView::NoPkgver => "Missing pkgver"@,
            FailureView::NoPkgrel => "Missing pkgrel"@,
            FailureView::NoInstalledVersion { artifact } => {
                "Could not determine installed version of "@ + artifact
            },
            FailureView::NotBuilt { path } => "makepkg failed in "@ + path,
            FailureView::NotInspected { file } => "Could not inspect package "@ + file,
            FailureView::ArtifactsMissing { path } => {
                "Could not find every artifact built in "@ + path
            },
            FailureView::ArtifactsNotInstalled { path } => {
                "Failed to install artifacts for "@ + path
            },
        }
    }
}

impl Failure {
    /// The same failure once more.
    pub fn copy(&self) -> (copy: Failure)
        ensures
            copy@ == self@,
    {
        match self {
            Failure::Root => Failure::Root,
            Failure::NoConfiguration => Failure::NoConfiguration,
            Failure::BadConfiguration { cause } => Failure::BadConfiguration {
                cause: cause.clone(),
            },
            Failure::Outside { cause } => Failure::Outside { cause: cause.clone() },
            Failure::NotRemoved => Failure::NotRemoved,
            Failure::NotDemoted { package, cause } => Failure::NotDemoted {
                package: package.clone(),
                cause: cause.clone(),
            },
            Failure::NotPromoted { package, cause } => Failure::NotPromoted {
                package: package.clone(),
                cause: cause.clone(),
            },
            Failure::NotUpgraded => Failure::NotUpgraded,
            Failure::NotInstalled => Failure::NotInstalled,
            Failure::NoHome => Failure::NoHome,
            Failure::NoRpcVersion { artifact } => Failure::NoRpcVersion {
                artifact: artifact.clone(),
            },
            Failure::NoRpcResult { artifact } => Failure::NoRpcResult {
                artifact: artifact.clone(),
            },
            Failure::NoPkgver => Failure::NoPkgver,
            Failure::NoPkgrel => Failure::NoPkgrel,
            Failure::NoInstalledVersion { artifact } => Failure::NoInstalledVersion {
                artifact: artifact.clone(),
            },
            Failure::NotBuilt { path } => Failure::NotBuilt { path: path.clone() },
            Failure::NotInspected { file } => Failure::NotInspected { file: file.clone() },
            Failure::ArtifactsMissing { path } => Failure::ArtifactsMissing { path: path.clone() },
            Failure::ArtifactsNotInstalled { path } => Failure::ArtifactsNotInstalled {
                path: path.clone(),
            },
        }
    }

    /// What the user is told.
    pub fn message(&self) -> (message: String)
        ensures
            message@ == self@.text(),
            match self {
                Failure::Root => message@ == "depac must not be run as root, makepkg disallows it"@,
                Failure::NoConfiguration => message@ == "Configuration path not given"@,
                Failure::BadConfiguration { cause } => message@
                    == "Failed to parse config: "@ + cause@,
                Failure::Outside { cause } => message@ == cause@,
                Failure::NotRemoved => message@ == "Failed to remove one or more packages"@,
                Failure::NotDemoted { package, cause } => message@
                    == "Could not mark "@ + package@ + " as a dependency: "@ + cause@,
                Failure::NotPromoted { package, cause } => message@
                    == "Could not mark "@ + package@ + " as explicitly installed: "@ + cause@,
                Failure::NotUpgraded => message@ == "System upgrade failed"@,
                Failure::NotInstalled => message@ == "Installation/upgrade failed"@,
                Failure::NoHome => message@ == "Bruh"@,
                Failure::NoRpcVersion { artifact } => message@
                    == "Could not retrieve RPC version for "@ + artifact@,
                Failure::NoRpcResult { artifact } => message@
                    == "RPC returned no result for "@ + artifact@,
                Failure::NoPkgver => message@ == "Missing pkgver"@,
                Failure::NoPkgrel => message@ == "Missing pkgrel"@,
                Failure::NoInstalledVersion { artifact } => message@
                    == "Could not determine installed version of "@ + artifact@,
                Failure::NotBuilt { path } => message@ == "makepkg failed in "@ + path@,
                Failure::NotInspected { file } => message@ == "Could not inspect package "@ + file@,
                Failure::ArtifactsMissing { path } => message@
                    == "Could not find every artifact built in "@ + path@,
                Failure::ArtifactsNotInstalled { path } => message@
                    == "Failed to install artifacts for "@ + path@,
            },
    {
        match self {
            Failure::Root => "depac must not be run as root, makepkg disallows it".to_string(),
            Failure::NoConfiguration => "Configuration path not given".to_string(),
            Failure::BadConfiguration { cause } => {
                "Failed to parse config: ".to_string().concat(cause.as_str())
            },
            Failure::Outside { cause } => cause.clone(),
            Failure::NotRemoved => "Failed to remove one or more packages".to_string(),
            Failure::NotDemoted { package, cause } => {
                "Could not mark ".to_string()
                    .concat(package.as_str())
                    .concat(" as a dependency: ")
                    .concat(cause.as_str())
            },
            Failure::NotPromoted { package, cause } => {
                "Could not mark ".to_string()
                    .concat(package.as_str())
                    .concat(" as explicitly installed: ")
                    .concat(cause.as_str())
            },
            Failure::NotUpgraded => "System upgrade failed".to_string(),
            Failure::NotInstalled => "Installation/upgrade failed".to_string(),
            Failure::NoHome => "Bruh".to_string(),
            Failure::NoRpcVersion { artifact } => {
                "Could not retrieve RPC version for ".to_string().concat(artifact.as_str())
            },
            Failure::NoRpcResult { artifact } => {
                "RPC returned no result for ".to_string().concat(artifact.as_str())
            },
            Failure::NoPkgver => "Missing pkgver".to_string(),
            Failure::NoPkgrel => "Missing pkgrel".to_string(),
            Failure::NoInstalledVersion { artifact } => {
                "Could not determine installed version of ".to_string().concat(artifact.as_str())
            },
            Failure::NotBuilt { path } => "makepkg failed in ".to_string().concat(path.as_str()),
            Failure::NotInspected { file } => {
                "Could not inspect package ".to_string().concat(file.as_str())
            },
            Failure::ArtifactsMissing { path } => {
                "Could not find every artifact built in ".to_string().concat(path.as_str())
            },
            Failure::ArtifactsNotInstalled { path } => {
                "Failed to install artifacts for ".to_string().concat(path.as_str())
            },
        }
    }
}

/// The model of a failure is the same failure, with a text for each string.
pub proof fn law_failure_model(failure: Failure)
    ensures
        match failure {
            Failure::Root => failure@ is Root,
            Failure::NoConfiguration => failure@ is NoConfiguration,
            Failure::BadConfiguration { cause } => failure@ == (FailureView::BadConfiguration {
                cause: cause@,
            }),
            Failure::Outside { cause } => failure@ == (FailureView::Outside {
                cause: cause@,
            }),
            Failure::NotRemoved => failure@ is NotRemoved,
            Failure::NotDemoted { package, cause } => failure@ == (FailureView::NotDemoted {
                package: package@,
                cause: cause@,
            }),
            Failure::NotPromoted { package, cause } => failure@ == (FailureView::NotPromoted {
                package: package@,
                cause: cause@,
            }),
            Failure::NotUpgraded => failure@ is NotUpgraded,
            Failure::NotInstalled => failure@ is NotInstalled,
            Failure::NoHome => failure@ is NoHome,
            Failure::NoRpcVersion { artifact } => failure@ == (FailureView::NoRpcVersion {
                artifact: artifact@,
            }),
            Failure::NoRpcResult { artifact } => failure@ == (FailureView::NoRpcResult {
                artifact: artifact@,
            }),
            Failure::NoPkgver => failure@ is NoPkgver,
            Failure::NoPkgrel => failure@ is NoPkgrel,
            Failure::NoInstalledVersion { artifact } => failure@ == (FailureView::NoInstalledVersion {
                artifact: artifact@,
            }),
            Failure::NotBuilt { path } => failure@ == (FailureView::NotBuilt {
                path: path@,
            }),
            Failure::NotInspected { file } => failure@ == (FailureView::NotInspected {
                file: file@,
            }),
            Failure::ArtifactsMissing { path } => failure@ == (FailureView::ArtifactsMissing {
                path: path@,
            }),
            Failure::ArtifactsNotInstalled { path } => failure@ == (FailureView::ArtifactsNotInstalled {
                path: path@,
            }),
        },
{
}

} // verus!
