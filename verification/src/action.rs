//! What a run asks of the world.
use crate::config::optional;
use crate::failure::{Failure, FailureView};
use crate::names::copy_names;
use crate::text::{lemma_texts_push, texts, Text};
use vstd::prelude::*;

verus! {

/// The model of `Action`.
pub enum ActionView {
    ListOrphans,
    ListExplicit,
    ListInstalled,
    Confirm { packages: Seq<Text>, default: bool },
    QueryPackage { package: Text },
    MarkDependency { package: Text, required_by: Seq<Text> },
    MarkExplicit { package: Text },
    Remove { packages: Seq<Text> },
    Upgrade { packages: Seq<Text> },
    OpenCache,
    NextEntry,
    InspectOrigin,
    RemoveEntry { reason: Text },
    Locate { base: Text },
    CloneRepository { base: Text, url: Text },
    QueryRpc { artifact: Text },
    UpdateRepository { base: Text },
    Prepare { base: Text },
    PrintSrcinfo { base: Text },
    QueryVersion { artifact: Text },
    CompareVersions { artifact: Text, installed: Text, version: Text },
    Build { base: Text, reason: Text },
    ListBuilt { base: Text },
    InspectFile { file: Text },
    InstallFiles { base: Text, files: Seq<Text> },
    Complete { rpc_checked: nat, git_checked: nat },
    Fail { failure: FailureView },
}

/// What is to be done next.
#[derive(Debug, PartialEq, Eq)]
pub enum Action {
    /// List the dependencies that nothing requires any more.
    ListOrphans,
    /// List the packages that were installed for their own sake.
    ListExplicit,
    /// List all the packages that are installed.
    ListInstalled,
    /// Ask whether these packages may be removed.
    Confirm { packages: Vec<String>, default: bool },
    /// Ask what is known of a package that is installed.
    QueryPackage { package: String },
    /// Mark a package as a dependency of those that require it.
    MarkDependency { package: String, required_by: Vec<String> },
    /// Mark a package as installed for its own sake.
    MarkExplicit { package: String },
    /// Remove packages.
    Remove { packages: Vec<String> },
    /// Upgrade the system, and install packages.
    Upgrade { packages: Vec<String> },
    /// Open the directory of cloned repositories.
    OpenCache,
    /// Go to the next entry of that directory.
    NextEntry,
    /// Look up where the repository of the entry comes from.
    InspectOrigin,
    /// Remove the entry.
    RemoveEntry { reason: String },
    /// Look whether the repository of a base is there.
    Locate { base: String },
    /// Clone the repository of a base.
    CloneRepository { base: String, url: String },
    /// Ask the AUR about a package.
    QueryRpc { artifact: String },
    /// Bring the repository of a base up to date.
    UpdateRepository { base: String },
    /// Get the sources of a base, so that its version is known.
    Prepare { base: String },
    /// Print what the sources of a base say of it.
    PrintSrcinfo { base: String },
    /// Ask which version of a package is installed.
    QueryVersion { artifact: String },
    /// Compare the installed version of a package with another one.
    CompareVersions { artifact: String, installed: String, version: String },
    /// Build a base.
    Build { base: String, reason: String },
    /// List the package files of a base.
    ListBuilt { base: String },
    /// Ask which package a file holds.
    InspectFile { file: String },
    /// Install package files of a base.
    InstallFiles { base: String, files: Vec<String> },
    /// All is done: so many bases were checked in each way.
    Complete { rpc_checked: usize, git_checked: usize },
    /// The run is over, and has failed.
    Fail { failure: Failure },
}

impl View for Action {
    type V = ActionView;

    open spec fn view(&self) -> ActionView {
        match self {
            Action::ListOrphans => ActionView::ListOrphans,
            Action::ListExplicit => ActionView::ListExplicit,
            Action::ListInstalled => ActionView::ListInstalled,
            Action::Confirm { packages, default } => ActionView::Confirm {
                packages: texts(packages@),
                default: *default,
            },
            Action::QueryPackage { package } => ActionView::QueryPackage { package: package@ },
            Action::MarkDependency { package, required_by } => ActionView::MarkDependency {
                package: package@,
                required_by: texts(required_by@),
            },
            Action::MarkExplicit { package } => ActionView::MarkExplicit { package: package@ },
            Action::Remove { packages } => ActionView::Remove { packages: texts(packages@) },
            Action::Upgrade { packages } => ActionView::Upgrade { packages: texts(packages@) },
            Action::OpenCache => ActionView::OpenCache,
            Action::NextEntry => ActionView::NextEntry,
            Action::InspectOrigin => ActionView::InspectOrigin,
            Action::RemoveEntry { reason } => ActionView::RemoveEntry { reason: reason@ },
            Action::Locate { base } => ActionView::Locate { base: base@ },
            Action::CloneRepository { base, url } => ActionView::CloneRepository {
                base: base@,
                url: url@,
            },
            Action::QueryRpc { artifact } => ActionView::QueryRpc { artifact: artifact@ },
            Action::UpdateRepository { base } => ActionView::UpdateRepository { base: base@ },
            Action::Prepare { base } => ActionView::Prepare { base: base@ },
            Action::PrintSrcinfo { base } => ActionView::PrintSrcinfo { base: base@ },
            Action::QueryVersion { artifact } => ActionView::QueryVersion { artifact: artifact@ },
            Action::CompareVersions { artifact, installed, version } => ActionView::CompareVersions {
                artifact: artifact@,
                installed: installed@,
                version: version@,
            },
            Action::Build { base, reason } => ActionView::Build { base: base@, reason: reason@ },
            Action::ListBuilt { base } => ActionView::ListBuilt { base: base@ },
            Action::InspectFile { file } => ActionView::InspectFile { file: file@ },
            Action::InstallFiles { base, files } => ActionView::InstallFiles {
                base: base@,
                files: texts(files@),
            },
            Action::Complete { rpc_checked, git_checked } => ActionView::Complete {
                rpc_checked: *rpc_checked as nat,
                git_checked: *git_checked as nat,
            },
            Action::Fail { failure } => ActionView::Fail { failure: failure@ },
        }
    }
}

/// The model of `Command`.
#[verifier::ext_equal]
pub struct CommandView {
    pub program: Text,
    pub args: Seq<Text>,
    pub base: Option<Text>,
    pub auth: Option<Text>,
    pub capture: bool,
}

/// A command to run.
#[derive(Debug, PartialEq, Eq)]
pub struct Command {
    pub program: String,
    pub args: Vec<String>,
    /// The base in whose repository it runs, if it matters where.
    pub base: Option<String>,
    /// What makepkg is to elevate with, if it is told so.
    pub auth: Option<String>,
    /// Whether its output is read, or goes to the user.
    pub capture: bool,
}

impl View for Command {
    type V = CommandView;

    open spec fn view(&self) -> CommandView {
        CommandView {
            program: self.program@,
            args: texts(self.args@),
            base: optional(self.base),
            auth: optional(self.auth),
            capture: self.capture,
        }
    }
}

/// A query of pacman.
pub open spec fn query(args: Seq<Text>) -> CommandView {
    CommandView { program: "pacman"@, args, base: None, auth: None, capture: true }
}

/// A run of pacman as the superuser.
pub open spec fn elevated(elevation: Text, args: Seq<Text>, capture: bool) -> CommandView {
    CommandView {
        program: elevation,
        args: seq!["pacman"@] + args,
        base: None,
        auth: None,
        capture,
    }
}

/// A run of makepkg in the repository of a base, whose output is read.
pub open spec fn makepkg(base: Text, args: Seq<Text>) -> CommandView {
    CommandView { program: "makepkg"@, args, base: Some(base), auth: None, capture: true }
}

impl ActionView {
    /// The command that does it, where a command does.
    pub open spec fn command(self, elevation: Text) -> Option<CommandView> {
        match self {
            ActionView::ListOrphans => Some(query(seq!["-Qtdq"@])),
            ActionView::ListExplicit => Some(query(seq!["-Qeq"@])),
            ActionView::ListInstalled => Some(query(seq!["-Qq"@])),
            ActionView::QueryPackage { package } => Some(query(seq!["-Qi"@, package])),
            ActionView::MarkDependency { package, .. } => Some(
                elevated(elevation, seq!["-D"@, "--asdep"@, package], true),
            ),
            ActionView::MarkExplicit { package } => Some(
                elevated(elevation, seq!["-D"@, "--asexplicit"@, package], true),
            ),
            ActionView::Remove { packages } => Some(
                elevated(elevation, seq!["-Rns"@, "--noconfirm"@] + packages, false),
            ),
            ActionView::Upgrade { packages } => Some(
                elevated(elevation, seq!["-Syu"@, "--noconfirm"@] + packages, false),
            ),
            ActionView::Prepare { base } => Some(makepkg(base, seq!["--nobuild"@, "--noconfirm"@])),
            ActionView::PrintSrcinfo { base } => Some(makepkg(base, seq!["--printsrcinfo"@])),
            ActionView::QueryVersion { artifact } => Some(query(seq!["-Q"@, artifact])),
            ActionView::Build { base, .. } => Some(
                CommandView {
                    auth: Some(elevation),
                    capture: false,
                    ..makepkg(base, seq!["-s"@, "--noconfirm"@])
                },
            ),
            ActionView::ListBuilt { base } => Some(makepkg(base, seq!["--packagelist"@])),
            ActionView::InspectFile { file } => Some(query(seq!["-Qp"@, file])),
            ActionView::InstallFiles { files, .. } => Some(
                elevated(elevation, seq!["-U"@, "--noconfirm"@] + files, false),
            ),
            _ => None,
        }
    }
}

/// The models of string slices.
pub open spec fn slices(words: Seq<&str>) -> Seq<Text> {
    words.map_values(|word: &str| word@)
}

/// Strings of these words.
fn owned(words: &[&str]) -> (list: Vec<String>)
    ensures
        texts(list@) == slices(words@),
{
    let mut list: Vec<String> = Vec::new();
    let mut i: usize = 0;
    while i < words.len()
        invariant
            i <= words@.len(),
            texts(list@) == slices(words@).take(i as int),
        decreases words@.len() - i,
    {
        let word = words[i].to_string();
        proof {
            lemma_texts_push(list@, word);
            assert(slices(words@).take(i + 1) =~= slices(words@).take(i as int).push(word@));
        }
        list.push(word);
        i = i + 1;
    }
    proof {
        assert(slices(words@).take(i as int) =~= slices(words@));
    }
    list
}

/// A query of pacman.
fn pacman(words: &[&str]) -> (command: Command)
    ensures
        command@ == query(slices(words@)),
{
    Command {
        program: "pacman".to_string(),
        args: owned(words),
        base: None,
        auth: None,
        capture: true,
    }
}

/// A run of pacman as the superuser, on the names that come last.
fn sudo_pacman(
    elevation: &str,
    words: &[&str],
    names: &[String],
    capture: bool,
) -> (command: Command)
    ensures
        command@ == elevated(elevation@, slices(words@) + texts(names@), capture),
{
    let mut args: Vec<String> = Vec::new();
    args.push("pacman".to_string());
    let ghost first = args@;
    let mut middle = owned(words);
    let ghost second = middle@;
    args.append(&mut middle);
    let mut last = copy_names(names);
    let ghost third = last@;
    args.append(&mut last);
    proof {
        assert(texts(args@) =~= texts(first) + texts(second) + texts(third));
        assert(texts(args@) =~= seq!["pacman"@] + (slices(words@) + texts(names@)));
    }
    Command { program: elevation.to_string(), args, base: None, auth: None, capture }
}

/// A run of makepkg in the repository of a base, whose output is read.
fn run_makepkg(base: &String, words: &[&str]) -> (command: Command)
    ensures
        command@ == makepkg(base@, slices(words@)),
{
    Command {
        program: "makepkg".to_string(),
        args: owned(words),
        base: Some(base.clone()),
        auth: None,
        capture: true,
    }
}

impl Action {
    /// The command that does it, where a command does.
    pub fn command(&self, elevation: &str) -> (command: Option<Command>)
        ensures
            match command {
                Some(command) => self@.command(elevation@) == Some(command@),
                None => self@.command(elevation@) is None,
            },
            match (self, command) {
                (Action::ListOrphans, Some(command)) => {
                    &&& command.program@ == "pacman"@
                    &&& texts(command.args@) == seq!["-Qtdq"@]
                    &&& command.base is None
                    &&& command.auth is None
                    &&& command.capture
                },
                (Action::ListExplicit, Some(command)) => {
                    &&& command.program@ == "pacman"@
                    &&& texts(command.args@) == seq!["-Qeq"@]
                    &&& command.base is None
                    &&& command.auth is None
                    &&& command.capture
                },
                (Action::ListInstalled, Some(command)) => {
                    &&& command.program@ == "pacman"@
                    &&& texts(command.args@) == seq!["-Qq"@]
                    &&& command.base is None
                    &&& command.auth is None
                    &&& command.capture
                },
                (Action::QueryPackage { package }, Some(command)) => {
                    &&& command.program@ == "pacman"@
                    &&& texts(command.args@) == seq!["-Qi"@, package@]
                    &&& command.base is None
                    &&& command.auth is None
                    &&& command.capture
                },
                (Action::MarkDependency { package, .. }, Some(command)) => {
                    &&& command.program@ == elevation@
                    &&& texts(command.args@) == seq!["pacman"@, "-D"@, "--asdep"@, package@]
                    &&& command.base is None
                    &&& command.auth is None
                    &&& command.capture
                },
                (Action::MarkExplicit { package }, Some(command)) => {
                    &&& command.program@ == elevation@
                    &&& texts(command.args@) == seq!["pacman"@, "-D"@, "--asexplicit"@, package@]
                    &&& command.base is None
                    &&& command.auth is None
                    &&& command.capture
                },
                (Action::Remove { packages }, Some(command)) => {
                    &&& command.program@ == elevation@
                    &&& texts(command.args@) == seq!["pacman"@, "-Rns"@, "--noconfirm"@] + texts(packages@)
                    &&& command.base is None
                    &&& command.auth is None
                    &&& !command.capture
                },
                (Action::Upgrade { packages }, Some(command)) => {
                    &&& command.program@ == elevation@
                    &&& texts(command.args@) == seq!["pacman"@, "-Syu"@, "--noconfirm"@] + texts(packages@)
                    &&& command.base is None
                    &&& command.auth is None
                    &&& !command.capture
                },
                (Action::Prepare { base }, Some(command)) => {
                    &&& command.program@ == "makepkg"@
                    &&& texts(command.args@) == seq!["--nobuild"@, "--noconfirm"@]
                    &&& (command.base matches Some(place) && place@ == base@)
                    &&& command.auth is None
                    &&& command.capture
                },
                (Action::PrintSrcinfo { base }, Some(command)) => {
                    &&& command.program@ == "makepkg"@
                    &&& texts(command.args@) == seq!["--printsrcinfo"@]
                    &&& (command.base matches Some(place) && place@ == base@)
                    &&& command.auth is None
                    &&& command.capture
                },
                (Action::QueryVersion { artifact }, Some(command)) => {
                    &&& command.program@ == "pacman"@
                    &&& texts(command.args@) == seq!["-Q"@, artifact@]
                    &&& command.base is None
                    &&& command.auth is None
                    &&& command.capture
                },
                (Action::Build { base, .. }, Some(command)) => {
                    &&& command.program@ == "makepkg"@
                    &&& texts(command.args@) == seq!["-s"@, "--noconfirm"@]
                    &&& (command.base matches Some(place) && place@ == base@)
                    &&& (command.auth matches Some(auth) && auth@ == elevation@)
                    &&& !command.capture
                },
                (Action::ListBuilt { base }, Some(command)) => {
                    &&& command.program@ == "makepkg"@
                    &&& texts(command.args@) == seq!["--packagelist"@]
                    &&& (command.base matches Some(place) && place@ == base@)
                    &&& command.auth is None
                    &&& command.capture
                },
                (Action::InspectFile { file }, Some(command)) => {
                    &&& command.program@ == "pacman"@
                    &&& texts(command.args@) == seq!["-Qp"@, file@]
                    &&& command.base is None
                    &&& command.auth is None
                    &&& command.capture
                },
                (Action::InstallFiles { files, .. }, Some(command)) => {
                    &&& command.program@ == elevation@
                    &&& texts(command.args@) == seq!["pacman"@, "-U"@, "--noconfirm"@] + texts(files@)
                    &&& command.base is None
                    &&& command.auth is None
                    &&& !command.capture
                },
                (Action::Confirm { .. }, command) => command is None,
                (Action::OpenCache, command) => command is None,
                (Action::NextEntry, command) => command is None,
                (Action::InspectOrigin, command) => command is None,
                (Action::RemoveEntry { .. }, command) => command is None,
                (Action::Locate { .. }, command) => command is None,
                (Action::CloneRepository { .. }, command) => command is None,
                (Action::QueryRpc { .. }, command) => command is None,
                (Action::UpdateRepository { .. }, command) => command is None,
                (Action::CompareVersions { .. }, command) => command is None,
                (Action::Complete { .. }, command) => command is None,
                (Action::Fail { .. }, command) => command is None,
                (_, None) => false,
            },
    {
        let none: Vec<String> = Vec::new();
        match self {
            Action::ListOrphans => {
                let words: &[&str] = &["-Qtdq"];
                assert(slices(words@) =~= seq!["-Qtdq"@]);
                Some(pacman(words))
            },
            Action::ListExplicit => {
                let words: &[&str] = &["-Qeq"];
                assert(slices(words@) =~= seq!["-Qeq"@]);
                Some(pacman(words))
            },
            Action::ListInstalled => {
                let words: &[&str] = &["-Qq"];
                assert(slices(words@) =~= seq!["-Qq"@]);
                Some(pacman(words))
            },
            Action::QueryPackage { package } => {
                let words: &[&str] = &["-Qi", package.as_str()];
                assert(slices(words@) =~= seq!["-Qi"@, package@]);
                Some(pacman(words))
            },
            Action::MarkDependency { package, .. } => {
                let words: &[&str] = &["-D", "--asdep", package.as_str()];
                assert(slices(words@) + texts(none@) =~= seq!["-D"@, "--asdep"@, package@]);
                Some(sudo_pacman(elevation, words, none.as_slice(), true))
            },
            Action::MarkExplicit { package } => {
                let words: &[&str] = &["-D", "--asexplicit", package.as_str()];
                assert(slices(words@) + texts(none@) =~= seq!["-D"@, "--asexplicit"@, package@]);
                Some(sudo_pacman(elevation, words, none.as_slice(), true))
            },
            Action::Remove { packages } => {
                let words: &[&str] = &["-Rns", "--noconfirm"];
                assert(slices(words@) =~= seq!["-Rns"@, "--noconfirm"@]);
                Some(sudo_pacman(elevation, words, packages.as_slice(), false))
            },
            Action::Upgrade { packages } => {
                let words: &[&str] = &["-Syu", "--noconfirm"];
                assert(slices(words@) =~= seq!["-Syu"@, "--noconfirm"@]);
                Some(sudo_pacman(elevation, words, packages.as_slice(), false))
            },
            Action::Prepare { base } => {
                let words: &[&str] = &["--nobuild", "--noconfirm"];
                assert(slices(words@) =~= seq!["--nobuild"@, "--noconfirm"@]);
                Some(run_makepkg(base, words))
            },
            Action::PrintSrcinfo { base } => {
                let words: &[&str] = &["--printsrcinfo"];
                assert(slices(words@) =~= seq!["--printsrcinfo"@]);
                Some(run_makepkg(base, words))
            },
            Action::QueryVersion { artifact } => {
                let words: &[&str] = &["-Q", artifact.as_str()];
                assert(slices(words@) =~= seq!["-Q"@, artifact@]);
                Some(pacman(words))
            },
            Action::Build { base, .. } => {
                let words: &[&str] = &["-s", "--noconfirm"];
                assert(slices(words@) =~= seq!["-s"@, "--noconfirm"@]);
                let mut command = run_makepkg(base, words);
                command.auth = Some(elevation.to_string());
                command.capture = false;
                Some(command)
            },
            Action::ListBuilt { base } => {
                let words: &[&str] = &["--packagelist"];
                assert(slices(words@) =~= seq!["--packagelist"@]);
                Some(run_makepkg(base, words))
            },
            Action::InspectFile { file } => {
                let words: &[&str] = &["-Qp", file.as_str()];
                assert(slices(words@) =~= seq!["-Qp"@, file@]);
                Some(pacman(words))
            },
            Action::InstallFiles { files, .. } => {
                let words: &[&str] = &["-U", "--noconfirm"];
                assert(slices(words@) =~= seq!["-U"@, "--noconfirm"@]);
                Some(sudo_pacman(elevation, words, files.as_slice(), false))
            },
            _ => None,
        }
    }
}

/// A command on a list of packages names all of them, each once and in order,
/// after the words that say what to do.
pub proof fn law_commands_name_every_package(
    action: ActionView,
    elevation: Text,
    base: Text,
    packages: Seq<Text>,
)
    requires
        action == (ActionView::Upgrade { packages }) || action == (ActionView::Remove { packages })
            || action == (ActionView::InstallFiles { base, files: packages }),
    ensures
        ({
            let command = action.command(elevation).unwrap();
            let words = command.args;
            &&& action.command(elevation) is Some
            &&& command.program == elevation
            &&& words.len() == 3 + packages.len()
            &&& words[0] == "pacman"@
            &&& words[1] == (if action is Upgrade {
                "-Syu"@
            } else if action is Remove {
                "-Rns"@
            } else {
                "-U"@
            })
            &&& words[2] == "--noconfirm"@
            &&& forall|i: int| 0 <= i < packages.len() ==> words[3 + i] == #[trigger] packages[i]
            &&& command.base is None
            &&& command.auth is None
            &&& !command.capture
        }),
{
    let words = action.command(elevation).unwrap().args;
    assert forall|i: int| 0 <= i < packages.len() implies words[3 + i] == #[trigger] packages[i] by {}
}

/// A command on one package names it last.
pub proof fn law_commands_name_their_package(elevation: Text, package: Text, required_by: Seq<Text>)
    ensures
        ({
            let demote = ActionView::MarkDependency { package, required_by }.command(elevation);
            let promote = ActionView::MarkExplicit { package }.command(elevation);
            let query = ActionView::QueryPackage { package }.command(elevation);
            let version = ActionView::QueryVersion { artifact: package }.command(elevation);
            let inspect = ActionView::InspectFile { file: package }.command(elevation);
            &&& demote is Some && demote->0.program == elevation && demote->0.args =~= seq![
                "pacman"@, "-D"@, "--asdep"@, package,
            ] && demote->0.base is None && demote->0.auth is None && demote->0.capture
            &&& promote is Some && promote->0.program == elevation && promote->0.args =~= seq![
                "pacman"@, "-D"@, "--asexplicit"@, package,
            ] && promote->0.base is None && promote->0.auth is None && promote->0.capture
            &&& query is Some && query->0.program == "pacman"@ && query->0.args =~= seq![
                "-Qi"@, package,
            ] && query->0.base is None && query->0.auth is None && query->0.capture
            &&& version is Some && version->0.program == "pacman"@ && version->0.args =~= seq![
                "-Q"@, package,
            ] && version->0.base is None && version->0.auth is None && version->0.capture
            &&& inspect is Some && inspect->0.program == "pacman"@ && inspect->0.args =~= seq![
                "-Qp"@, package,
            ] && inspect->0.base is None && inspect->0.auth is None && inspect->0.capture
        }),
{
}

/// Packages are listed by pacman, without the superuser.
pub proof fn law_list_commands(elevation: Text)
    ensures
        ({
            let orphans = ActionView::ListOrphans.command(elevation);
            let explicit = ActionView::ListExplicit.command(elevation);
            let installed = ActionView::ListInstalled.command(elevation);
            &&& orphans is Some && orphans->0.program == "pacman"@ && orphans->0.args =~= seq![
                "-Qtdq"@,
            ] && orphans->0.base is None && orphans->0.auth is None && orphans->0.capture
            &&& explicit is Some && explicit->0.program == "pacman"@ && explicit->0.args =~= seq![
                "-Qeq"@,
            ] && explicit->0.base is None && explicit->0.auth is None && explicit->0.capture
            &&& installed is Some && installed->0.program == "pacman"@ && installed->0.args =~= seq![
                "-Qq"@,
            ] && installed->0.base is None && installed->0.auth is None && installed->0.capture
        }),
{
}

/// makepkg runs in the repository of the base. Only for a build is it told what
/// to elevate with, and only then does its output go to the user.
pub proof fn law_makepkg_commands(elevation: Text, base: Text, reason: Text)
    ensures
        ({
            let prepare = ActionView::Prepare { base }.command(elevation);
            let print = ActionView::PrintSrcinfo { base }.command(elevation);
            let list = ActionView::ListBuilt { base }.command(elevation);
            let build = ActionView::Build { base, reason }.command(elevation);
            &&& prepare is Some && prepare->0.program == "makepkg"@ && prepare->0.args =~= seq![
                "--nobuild"@, "--noconfirm"@,
            ] && prepare->0.base == Some(base) && prepare->0.auth is None && prepare->0.capture
            &&& print is Some && print->0.program == "makepkg"@ && print->0.args =~= seq![
                "--printsrcinfo"@,
            ] && print->0.base == Some(base) && print->0.auth is None && print->0.capture
            &&& list is Some && list->0.program == "makepkg"@ && list->0.args =~= seq![
                "--packagelist"@,
            ] && list->0.base == Some(base) && list->0.auth is None && list->0.capture
            &&& build is Some && build->0.program == "makepkg"@ && build->0.args =~= seq![
                "-s"@, "--noconfirm"@,
            ] && build->0.base == Some(base) && build->0.auth == Some(elevation)
                && !build->0.capture
        }),
{
}

/// The model of an action is the same action, with a text for each string.
pub proof fn law_action_model(action: Action)
    ensures
        match action {
            Action::ListOrphans => action@ is ListOrphans,
            Action::ListExplicit => action@ is ListExplicit,
            Action::ListInstalled => action@ is ListInstalled,
            Action::Confirm { packages, default } => action@ == (ActionView::Confirm {
                packages: texts(packages@),
                default,
            }),
            Action::QueryPackage { package } => action@ == (ActionView::QueryPackage {
                package: package@,
            }),
            Action::MarkDependency { package, required_by } => action@ == (
            ActionView::MarkDependency { package: package@, required_by: texts(required_by@) }),
            Action::MarkExplicit { package } => action@ == (ActionView::MarkExplicit {
                package: package@,
            }),
            Action::Remove { packages } => action@ == (ActionView::Remove {
                packages: texts(packages@),
            }),
            Action::Upgrade { packages } => action@ == (ActionView::Upgrade {
                packages: texts(packages@),
            }),
            Action::OpenCache => action@ is OpenCache,
            Action::NextEntry => action@ is NextEntry,
            Action::InspectOrigin => action@ is InspectOrigin,
            Action::RemoveEntry { reason } => action@ == (ActionView::RemoveEntry {
                reason: reason@,
            }),
            Action::Locate { base } => action@ == (ActionView::Locate { base: base@ }),
            Action::CloneRepository { base, url } => action@ == (ActionView::CloneRepository {
                base: base@,
                url: url@,
            }),
            Action::QueryRpc { artifact } => action@ == (ActionView::QueryRpc {
                artifact: artifact@,
            }),
            Action::UpdateRepository { base } => action@ == (ActionView::UpdateRepository {
                base: base@,
            }),
            Action::Prepare { base } => action@ == (ActionView::Prepare { base: base@ }),
            Action::PrintSrcinfo { base } => action@ == (ActionView::PrintSrcinfo { base: base@ }),
            Action::QueryVersion { artifact } => action@ == (ActionView::QueryVersion {
                artifact: artifact@,
            }),
            Action::CompareVersions { artifact, installed, version } => action@ == (
            ActionView::CompareVersions {
                artifact: artifact@,
                installed: installed@,
                version: version@,
            }),
            Action::Build { base, reason } => action@ == (ActionView::Build {
                base: base@,
                reason: reason@,
            }),
            Action::ListBuilt { base } => action@ == (ActionView::ListBuilt { base: base@ }),
            Action::InspectFile { file } => action@ == (ActionView::InspectFile { file: file@ }),
            Action::InstallFiles { base, files } => action@ == (ActionView::InstallFiles {
                base: base@,
                files: texts(files@),
            }),
            Action::Complete { rpc_checked, git_checked } => action@ == (ActionView::Complete {
                rpc_checked: rpc_checked as nat,
                git_checked: git_checked as nat,
            }),
            Action::Fail { failure } => action@ == (ActionView::Fail { failure: failure@ }),
        },
{
}

} // verus!
