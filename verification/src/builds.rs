//! The package bases of a run: which to build, and what to install of them.
use crate::action::{Action, ActionView};
use crate::config::{pkgbuild_views, Pkgbuild, PkgbuildView, Plan, PlanView};
use crate::failure::{Failure, FailureView};
use crate::names::{copy_names, has_name, lines_to_vec, listed};
use crate::reply::{Reply, ReplyView, RpcResponse, RpcResponseView, Turn, VersionOrder};
use crate::text::{
    law_split_is_at_the_first_mark, law_split_undoes_joining, lemma_texts_push, lines,
    split_at_first, split_lines, split_once, split_words, texts, trim, trimmed, words, Text,
};
use vstd::prelude::*;

verus! {

/// The model of `BuildStep`.
pub enum BuildStepView {
    Locate,
    Clone,
    Rpc,
    Update,
    Prepare,
    Srcinfo,
    Version { version: Text, artifact: nat },
    Compare { version: Text, artifact: nat, installed: Text },
    Refresh { reason: Text },
    Make { reason: Text },
    ListBuilt,
    Inspect { files: Seq<Text>, seen: nat, chosen: Seq<Text> },
    Install { files: Seq<Text> },
}

/// How far a base is.
#[derive(Debug, PartialEq, Eq)]
pub enum BuildStep {
    /// Whether the repository is there is being looked up.
    Locate,
    /// The repository is being cloned.
    Clone,
    /// The AUR is asked for the version.
    Rpc,
    /// The repository is being brought up to date, for the version.
    Update,
    /// The sources are being prepared, for the version.
    Prepare,
    /// What the sources say of themselves is being printed.
    Srcinfo,
    /// Which version of an artifact is installed is being asked.
    Version { version: String, artifact: usize },
    /// That version is being compared.
    Compare { version: String, artifact: usize, installed: String },
    /// The repository is being brought up to date, for a build.
    Refresh { reason: String },
    /// The base is being built.
    Make { reason: String },
    /// The files that were built are being listed.
    ListBuilt,
    /// Which package each of them holds is being asked, one after the other.
    Inspect { files: Vec<String>, seen: usize, chosen: Vec<String> },
    /// Those that hold artifacts are being installed.
    Install { files: Vec<String> },
}

impl View for BuildStep {
    type V = BuildStepView;

    open spec fn view(&self) -> BuildStepView {
        match self {
            BuildStep::Locate => BuildStepView::Locate,
            BuildStep::Clone => BuildStepView::Clone,
            BuildStep::Rpc => BuildStepView::Rpc,
            BuildStep::Update => BuildStepView::Update,
            BuildStep::Prepare => BuildStepView::Prepare,
            BuildStep::Srcinfo => BuildStepView::Srcinfo,
            BuildStep::Version { version, artifact } => BuildStepView::Version {
                version: version@,
                artifact: *artifact as nat,
            },
            BuildStep::Compare { version, artifact, installed } => BuildStepView::Compare {
                version: version@,
                artifact: *artifact as nat,
                installed: installed@,
            },
            BuildStep::Refresh { reason } => BuildStepView::Refresh { reason: reason@ },
            BuildStep::Make { reason } => BuildStepView::Make { reason: reason@ },
            BuildStep::ListBuilt => BuildStepView::ListBuilt,
            BuildStep::Inspect { files, seen, chosen } => BuildStepView::Inspect {
                files: texts(files@),
                seen: *seen as nat,
                chosen: texts(chosen@),
            },
            BuildStep::Install { files } => BuildStepView::Install { files: texts(files@) },
        }
    }
}

/// The model of `Build`.
pub struct BuildView {
    pub index: nat,
    pub rpc_checked: nat,
    pub git_checked: nat,
    pub path: Text,
    pub step: BuildStepView,
}

/// How far the bases are.
#[derive(Debug, PartialEq, Eq)]
pub struct Build {
    /// The base that it is at.
    pub index: usize,
    /// How many bases so far have their version asked from the AUR.
    pub rpc_checked: usize,
    /// How many bases so far have not.
    pub git_checked: usize,
    /// Where the repository of the base belongs, once that is known.
    pub path: String,
    pub step: BuildStep,
}

impl View for Build {
    type V = BuildView;

    open spec fn view(&self) -> BuildView {
        BuildView {
            index: self.index as nat,
            rpc_checked: self.rpc_checked as nat,
            git_checked: self.git_checked as nat,
            path: self.path@,
            step: self.step@,
        }
    }
}

/// The model of where the bases go next.
pub open spec fn build_turn_view(turn: Turn<Build, Failure>) -> Turn<BuildView, FailureView> {
    match turn {
        Turn::On { step } => Turn::On { step: step@ },
        Turn::Over => Turn::Over,
        Turn::Failed { failure } => Turn::Failed { failure: failure@ },
    }
}

/// The model of a string or a failure.
pub open spec fn found_view(found: Result<String, Failure>) -> Result<Text, FailureView> {
    match found {
        Ok(text) => Ok(text@),
        Err(failure) => Err(failure@),
    }
}

/// The value of the first line that gives one to `key`.
pub open spec fn field(lines: Seq<Text>, key: Text) -> Option<Text>
    decreases lines.len(),
{
    if lines.len() == 0 {
        None
    } else {
        match split_at_first(trimmed(lines[0]), " = "@) {
            Some((name, value)) => if name == key {
                Some(value)
            } else {
                field(lines.skip(1), key)
            },
            None => field(lines.skip(1), key),
        }
    }
}

/// The full version that a source gives itself.
pub open spec fn version_in(srcinfo: Text) -> Result<Text, FailureView> {
    let all = lines(srcinfo);
    match field(all, "pkgver"@) {
        None => Err(FailureView::NoPkgver),
        Some(pkgver) => match field(all, "pkgrel"@) {
            None => Err(FailureView::NoPkgrel),
            Some(pkgrel) => match field(all, "epoch"@) {
                Some(epoch) => Ok(epoch + ":"@ + pkgver + "-"@ + pkgrel),
                None => Ok(pkgver + "-"@ + pkgrel),
            },
        },
    }
}

/// The version that the AUR gives for a package.
pub open spec fn rpc_version(artifact: Text, response: RpcResponseView) -> Result<
    Text,
    FailureView,
> {
    if response.resultcount == 0 {
        Err(FailureView::NoRpcVersion { artifact })
    } else if response.versions.len() == 0 {
        Err(FailureView::NoRpcResult { artifact })
    } else {
        Ok(response.versions[0])
    }
}

/// How many of the bases have their version asked from the AUR.
pub open spec fn rpc_count(pkgbuilds: Seq<PkgbuildView>) -> nat
    decreases pkgbuilds.len(),
{
    if pkgbuilds.len() == 0 {
        0
    } else {
        rpc_count(pkgbuilds.drop_last()) + if pkgbuilds.last().uses_rpc() {
            1nat
        } else {
            0
        }
    }
}

/// The bases from `index` on, with these counts of those before.
pub open spec fn bases_from(
    plan: PlanView,
    index: nat,
    rpc_checked: nat,
    git_checked: nat,
) -> Turn<BuildView, FailureView> {
    if index < plan.pkgbuilds.len() {
        let rpc = plan.pkgbuilds[index as int].uses_rpc();
        Turn::On {
            step: BuildView {
                index,
                rpc_checked: if rpc {
                    rpc_checked + 1
                } else {
                    rpc_checked
                },
                git_checked: if rpc {
                    git_checked
                } else {
                    git_checked + 1
                },
                path: seq![],
                step: BuildStepView::Locate,
            },
        }
    } else {
        Turn::Over
    }
}

impl BuildView {
    /// The base that it is at.
    pub open spec fn base(self, plan: PlanView) -> PkgbuildView {
        plan.pkgbuilds[self.index as int]
    }

    /// The counters are in range, and count what they say.
    pub open spec fn well_formed(self, plan: PlanView) -> bool {
        &&& self.index < plan.pkgbuilds.len()
        &&& self.rpc_checked == rpc_count(plan.pkgbuilds.take(self.index as int + 1))
        &&& self.rpc_checked + self.git_checked == self.index + 1
        &&& match self.step {
            BuildStepView::Version { artifact, .. } => artifact < self.base(plan).artifacts.len(),
            BuildStepView::Compare { artifact, .. } => artifact < self.base(plan).artifacts.len(),
            BuildStepView::Inspect { files, seen, chosen } => seen < files.len() && chosen.len()
                <= seen,
            BuildStepView::Install { files } => files.len() == self.base(plan).artifacts.len(),
            _ => true,
        }
    }

    /// The same base, at another step.
    pub open spec fn at(self, step: BuildStepView) -> Turn<BuildView, FailureView> {
        Turn::On { step: BuildView { step, ..self } }
    }

    /// A base that was there already is built. What was asked from the AUR
    /// alone has not been brought up to date yet.
    pub open spec fn rebuild(self, plan: PlanView, reason: Text) -> Turn<BuildView, FailureView> {
        if self.base(plan).uses_rpc() {
            self.at(BuildStepView::Refresh { reason })
        } else {
            self.at(BuildStepView::Make { reason })
        }
    }

    /// The artifacts from `artifact` on are held against a version. After the
    /// last, nothing is to be built.
    pub open spec fn check_from(self, plan: PlanView, version: Text, artifact: nat) -> Turn<
        BuildView,
        FailureView,
    > {
        if artifact < self.base(plan).artifacts.len() {
            self.at(BuildStepView::Version { version, artifact })
        } else {
            self.finish(plan)
        }
    }

    /// The files from `seen` on are inspected. After the last, those chosen are
    /// installed, if there is one for each artifact.
    pub open spec fn inspect_from(
        self,
        plan: PlanView,
        files: Seq<Text>,
        seen: nat,
        chosen: Seq<Text>,
    ) -> Turn<BuildView, FailureView> {
        if seen < files.len() {
            self.at(BuildStepView::Inspect { files, seen, chosen })
        } else if chosen.len() != self.base(plan).artifacts.len() {
            Turn::Failed { failure: FailureView::ArtifactsMissing { path: self.path } }
        } else {
            self.at(BuildStepView::Install { files: chosen })
        }
    }

    /// The base is done with.
    pub open spec fn finish(self, plan: PlanView) -> Turn<BuildView, FailureView> {
        bases_from(plan, self.index + 1, self.rpc_checked, self.git_checked)
    }

    /// Over, with the message of an outside error.
    pub open spec fn broken(self, cause: Text) -> Turn<BuildView, FailureView> {
        Turn::Failed { failure: FailureView::Outside { cause } }
    }

    /// What the step waits for.
    pub open spec fn pending(self, plan: PlanView) -> ActionView {
        let base = self.base(plan).base;
        let artifacts = self.base(plan).artifacts;
        match self.step {
            BuildStepView::Locate => ActionView::Locate { base },
            BuildStepView::Clone => ActionView::CloneRepository {
                base,
                url: self.base(plan).url(),
            },
            BuildStepView::Rpc => ActionView::QueryRpc { artifact: artifacts[0] },
            BuildStepView::Update => ActionView::UpdateRepository { base },
            BuildStepView::Prepare => ActionView::Prepare { base },
            BuildStepView::Srcinfo => ActionView::PrintSrcinfo { base },
            BuildStepView::Version { artifact, .. } => ActionView::QueryVersion {
                artifact: artifacts[artifact as int],
            },
            BuildStepView::Compare { version, artifact, installed } => {
                ActionView::CompareVersions {
                    artifact: artifacts[artifact as int],
                    installed,
                    version,
                }
            },
            BuildStepView::Refresh { .. } => ActionView::UpdateRepository { base },
            BuildStepView::Make { reason } => ActionView::Build { base, reason },
            BuildStepView::ListBuilt => ActionView::ListBuilt { base },
            BuildStepView::Inspect { files, seen, .. } => ActionView::InspectFile {
                file: files[seen as int],
            },
            BuildStepView::Install { files } => ActionView::InstallFiles { base, files },
        }
    }

    /// Where the bases go from a step, once it has its reply. One that the step
    /// does not wait for changes nothing.
    pub open spec fn turn(self, plan: PlanView, reply: ReplyView) -> Turn<BuildView, FailureView> {
        let artifacts = self.base(plan).artifacts;
        match (self.step, reply) {
            (BuildStepView::Locate, ReplyView::Located { path, present }) => {
                let here = BuildView { path, ..self };
                if !present {
                    here.at(BuildStepView::Clone)
                } else if self.base(plan).uses_rpc() {
                    here.at(BuildStepView::Rpc)
                } else {
                    here.at(BuildStepView::Update)
                }
            },
            (BuildStepView::Clone, ReplyView::Finished(said)) => match said {
                Ok(()) => self.at(BuildStepView::Make { reason: "new clone"@ }),
                Err(cause) => self.broken(cause),
            },
            (BuildStepView::Rpc, ReplyView::Rpc(said)) => match said {
                Ok(response) => match rpc_version(artifacts[0], response) {
                    Ok(version) => self.check_from(plan, version, 0),
                    Err(failure) => Turn::Failed { failure },
                },
                Err(cause) => self.broken(cause),
            },
            (BuildStepView::Update, ReplyView::Finished(said)) => match said {
                Ok(()) => self.at(BuildStepView::Prepare),
                Err(cause) => self.broken(cause),
            },
            (BuildStepView::Prepare, ReplyView::Captured(said)) => match said {
                Ok(_) => self.at(BuildStepView::Srcinfo),
                Err(cause) => self.broken(cause),
            },
            (BuildStepView::Srcinfo, ReplyView::Captured(said)) => match said {
                Ok(srcinfo) => match version_in(srcinfo) {
                    Ok(version) => self.check_from(plan, version, 0),
                    Err(failure) => Turn::Failed { failure },
                },
                Err(cause) => self.broken(cause),
            },
            (BuildStepView::Version { version, artifact }, ReplyView::Captured(said)) => {
                match said {
                    Ok(text) => if words(text).len() < 2 {
                        Turn::Failed {
                            failure: FailureView::NoInstalledVersion {
                                artifact: artifacts[artifact as int],
                            },
                        }
                    } else {
                        self.at(
                            BuildStepView::Compare { version, artifact, installed: words(text)[1] },
                        )
                    },
                    Err(_) => self.rebuild(
                        plan,
                        artifacts[artifact as int] + " is not installed"@,
                    ),
                }
            },
            (
                BuildStepView::Compare { version, artifact, installed },
                ReplyView::Compared(order),
            ) => match order {
                VersionOrder::Older => self.rebuild(
                    plan,
                    "version: "@ + installed + " <- "@ + version,
                ),
                VersionOrder::Same => self.check_from(plan, version, artifact + 1),
                VersionOrder::Newer => self.check_from(plan, version, artifact + 1),
            },
            (BuildStepView::Refresh { reason }, ReplyView::Finished(said)) => match said {
                Ok(()) => self.at(BuildStepView::Make { reason }),
                Err(cause) => self.broken(cause),
            },
            (BuildStepView::Make { .. }, ReplyView::Exited(said)) => match said {
                Ok(true) => self.at(BuildStepView::ListBuilt),
                Ok(false) => Turn::Failed { failure: FailureView::NotBuilt { path: self.path } },
                Err(cause) => self.broken(cause),
            },
            (BuildStepView::ListBuilt, ReplyView::Captured(said)) => match said {
                Ok(raw) => self.inspect_from(plan, listed(raw), 0, seq![]),
                Err(cause) => self.broken(cause),
            },
            (BuildStepView::Inspect { files, seen, chosen }, ReplyView::Captured(said)) => {
                let file = files[seen as int];
                match said {
                    Ok(details) => if words(details).len() == 0 {
                        Turn::Failed { failure: FailureView::NotInspected { file } }
                    } else if artifacts.contains(words(details)[0]) {
                        self.inspect_from(plan, files, seen + 1, chosen.push(file))
                    } else {
                        self.inspect_from(plan, files, seen + 1, chosen)
                    },
                    Err(cause) => self.broken(cause),
                }
            },
            (BuildStepView::Install { .. }, ReplyView::Exited(said)) => match said {
                Ok(true) => self.finish(plan),
                Ok(false) => Turn::Failed {
                    failure: FailureView::ArtifactsNotInstalled { path: self.path },
                },
                Err(cause) => self.broken(cause),
            },
            _ => Turn::On { step: self },
        }
    }
}

/// The value of the first line that gives one to `key`.
fn value_of(all: &Vec<String>, key: &String) -> (value: Option<String>)
    ensures
        match value {
            Some(value) => field(texts(all@), key@) == Some(value@),
            None => field(texts(all@), key@) is None,
        },
{
    let ghost views = texts(all@);
    let mut i: usize = 0;
    proof {
        assert(views.skip(0) =~= views);
    }
    while i < all.len()
        invariant
            i <= all@.len(),
            views == texts(all@),
            field(views, key@) == field(views.skip(i as int), key@),
        decreases all@.len() - i,
    {
        proof {
            assert(views.skip(i as int)[0] == all@[i as int]@);
            assert(views.skip(i as int).skip(1) =~= views.skip(i + 1));
        }
        let line = trim(all[i].as_str());
        if let Some((name, value)) = split_once(line.as_str(), " = ") {
            if name == *key {
                return Some(value);
            }
        }
        i = i + 1;
    }
    None
}

/// The full version that a source gives itself. The epoch comes before it, if
/// there is one.
pub fn srcinfo_version(srcinfo: &str) -> (version: Result<String, Failure>)
    ensures
        found_view(version) == version_in(srcinfo@),
{
    let all = split_lines(srcinfo);
    let pkgver = match value_of(&all, &"pkgver".to_string()) {
        Some(pkgver) => pkgver,
        None => {
            return Err(Failure::NoPkgver);
        },
    };
    let pkgrel = match value_of(&all, &"pkgrel".to_string()) {
        Some(pkgrel) => pkgrel,
        None => {
            return Err(Failure::NoPkgrel);
        },
    };
    match value_of(&all, &"epoch".to_string()) {
        Some(epoch) => Ok(
            epoch.concat(":").concat(pkgver.as_str()).concat("-").concat(pkgrel.as_str()),
        ),
        None => Ok(pkgver.concat("-").concat(pkgrel.as_str())),
    }
}

/// The version that the AUR gives for a package.
pub fn get_rpc_version(artifact: &String, response: &RpcResponse) -> (version: Result<
    String,
    Failure,
>)
    ensures
        found_view(version) == rpc_version(artifact@, response@),
        response.resultcount > 0 && response.results@.len() > 0 ==> (version matches Ok(text)
            && text@ == response.results@[0].version@),
        response.resultcount == 0 ==> (version matches Err(failure) && (
        failure matches Failure::NoRpcVersion { artifact: name } && name@ == artifact@)),
        response.resultcount > 0 && response.results@.len() == 0 ==> (version matches Err(failure)
            && (failure matches Failure::NoRpcResult { artifact: name } && name@ == artifact@)),
{
    if response.resultcount == 0 {
        Err(Failure::NoRpcVersion { artifact: artifact.clone() })
    } else if response.results.len() == 0 {
        Err(Failure::NoRpcResult { artifact: artifact.clone() })
    } else {
        Ok(response.results[0].version.clone())
    }
}

/// What the user is told of a package whose installed version is newer than the
/// one that it is held against.
pub open spec fn newer_text(artifact: Text, installed: Text, version: Text) -> Text {
    "Local "@ + artifact + " newer than RPC ("@ + installed + " <- "@ + version
        + "), try disabling RPC"@
}

/// What the user is told of how versions compare: a word only if the installed
/// one is newer.
pub fn version_warning(
    artifact: &str,
    installed: &str,
    version: &str,
    order: VersionOrder,
) -> (warning: Option<String>)
    ensures
        match warning {
            Some(warning) => order is Newer && warning@ == newer_text(
                artifact@,
                installed@,
                version@,
            ),
            None => !(order is Newer),
        },
        warning matches Some(warning) ==> warning@ == "Local "@ + artifact@ + " newer than RPC ("@
            + installed@ + " <- "@ + version@ + "), try disabling RPC"@,
{
    match order {
        VersionOrder::Newer => Some(
            "Local ".to_string().concat(artifact).concat(" newer than RPC (").concat(
                installed,
            ).concat(" <- ").concat(version).concat("), try disabling RPC"),
        ),
        _ => None,
    }
}

/// The bases from `index` on, with these counts of those before.
pub fn start_bases(
    plan: &Plan,
    index: usize,
    rpc_checked: usize,
    git_checked: usize,
) -> (turn: Turn<Build, Failure>)
    requires
        index <= plan@.pkgbuilds.len(),
        rpc_checked == rpc_count(plan@.pkgbuilds.take(index as int)),
        rpc_checked + git_checked == index,
    ensures
        build_turn_view(turn) == bases_from(
            plan@,
            index as nat,
            rpc_checked as nat,
            git_checked as nat,
        ),
        turn matches Turn::On { step } ==> step@.well_formed(plan@),
{
    let count: usize = plan.pkgbuilds.len();
    if index < count {
        let path = String::new();
        let ghost all = plan@.pkgbuilds;
        proof {
            assert(path@ =~= seq![]);
            assert(all.take(index + 1).drop_last() =~= all.take(index as int));
            assert(all.take(index + 1).last() == plan.pkgbuilds@[index as int]@);
        }
        let build = if plan.pkgbuilds[index].uses_rpc() {
            Build {
                index,
                rpc_checked: rpc_checked + 1,
                git_checked,
                path,
                step: BuildStep::Locate,
            }
        } else {
            Build {
                index,
                rpc_checked,
                git_checked: git_checked + 1,
                path,
                step: BuildStep::Locate,
            }
        };
        Turn::On { step: build }
    } else {
        Turn::Over
    }
}

impl Build {
    /// The same base, at another step.
    fn at(self, step: BuildStep) -> (turn: Turn<Build, Failure>)
        ensures
            build_turn_view(turn) == self@.at(step@),
    {
        Turn::On {
            step: Build {
                index: self.index,
                rpc_checked: self.rpc_checked,
                git_checked: self.git_checked,
                path: self.path,
                step,
            },
        }
    }

    /// A base that was there already is built.
    fn rebuild(self, plan: &Plan, reason: String) -> (turn: Turn<Build, Failure>)
        requires
            self@.index < plan@.pkgbuilds.len(),
        ensures
            build_turn_view(turn) == self@.rebuild(plan@, reason@),
    {
        if plan.pkgbuilds[self.index].uses_rpc() {
            self.at(BuildStep::Refresh { reason })
        } else {
            self.at(BuildStep::Make { reason })
        }
    }

    /// The base is done with.
    fn finish(self, plan: &Plan) -> (turn: Turn<Build, Failure>)
        requires
            self@.well_formed(plan@),
        ensures
            build_turn_view(turn) == self@.finish(plan@),
            turn matches Turn::On { step } ==> step@.well_formed(plan@),
    {
        let count: usize = plan.pkgbuilds.len();
        assert(self.index < count);
        start_bases(plan, self.index + 1, self.rpc_checked, self.git_checked)
    }

    /// The artifacts from `artifact` on are held against a version.
    fn check(self, plan: &Plan, version: String, artifact: usize) -> (turn: Turn<Build, Failure>)
        requires
            self@.well_formed(plan@),
        ensures
            build_turn_view(turn) == self@.check_from(plan@, version@, artifact as nat),
            turn matches Turn::On { step } ==> step@.well_formed(plan@),
    {
        if artifact < plan.pkgbuilds[self.index].artifacts.len() {
            self.at(BuildStep::Version { version, artifact })
        } else {
            self.finish(plan)
        }
    }

    /// The files from `seen` on are inspected.
    fn inspect(
        self,
        plan: &Plan,
        files: Vec<String>,
        seen: usize,
        chosen: Vec<String>,
    ) -> (turn: Turn<Build, Failure>)
        requires
            self@.well_formed(plan@),
            chosen@.len() <= seen,
        ensures
            build_turn_view(turn) == self@.inspect_from(
                plan@,
                texts(files@),
                seen as nat,
                texts(chosen@),
            ),
            turn matches Turn::On { step } ==> step@.well_formed(plan@),
    {
        if seen < files.len() {
            self.at(BuildStep::Inspect { files, seen, chosen })
        } else if chosen.len() != plan.pkgbuilds[self.index].artifacts.len() {
            Turn::Failed { failure: Failure::ArtifactsMissing { path: self.path } }
        } else {
            self.at(BuildStep::Install { files: chosen })
        }
    }

    /// What the step waits for.
    pub fn pending(&self, plan: &Plan) -> (action: Action)
        requires
            plan@.well_formed(),
            self@.well_formed(plan@),
        ensures
            action@ == self@.pending(plan@),
    {
        let pkgbuild = &plan.pkgbuilds[self.index];
        assert(pkgbuild@ == self@.base(plan@));
        assert(pkgbuild@.artifacts.len() > 0);
        let base = pkgbuild.base.clone();
        match &self.step {
            BuildStep::Locate => Action::Locate { base },
            BuildStep::Clone => Action::CloneRepository { base, url: pkgbuild.url() },
            BuildStep::Rpc => Action::QueryRpc { artifact: pkgbuild.artifacts[0].clone() },
            BuildStep::Update => Action::UpdateRepository { base },
            BuildStep::Prepare => Action::Prepare { base },
            BuildStep::Srcinfo => Action::PrintSrcinfo { base },
            BuildStep::Version { artifact, .. } => Action::QueryVersion {
                artifact: pkgbuild.artifacts[*artifact].clone(),
            },
            BuildStep::Compare { version, artifact, installed } => Action::CompareVersions {
                artifact: pkgbuild.artifacts[*artifact].clone(),
                installed: installed.clone(),
                version: version.clone(),
            },
            BuildStep::Refresh { .. } => Action::UpdateRepository { base },
            BuildStep::Make { reason } => Action::Build { base, reason: reason.clone() },
            BuildStep::ListBuilt => Action::ListBuilt { base },
            BuildStep::Inspect { files, seen, .. } => Action::InspectFile {
                file: files[*seen].clone(),
            },
            BuildStep::Install { files } => Action::InstallFiles {
                base,
                files: copy_names(files.as_slice()),
            },
        }
    }

    /// Where the bases go from here, now that the reply is there. One that the
    /// step does not wait for changes nothing.
    pub fn turn(self, plan: &Plan, reply: Reply) -> (turn: Turn<Build, Failure>)
        requires
            plan@.well_formed(),
            self@.well_formed(plan@),
        ensures
            build_turn_view(turn) == self@.turn(plan@, reply@),
            turn matches Turn::On { step } ==> step@.well_formed(plan@),
    {
        let ghost before = self@;
        let pkgbuild = &plan.pkgbuilds[self.index];
        assert(pkgbuild@ == self@.base(plan@));
        assert(pkgbuild@.artifacts.len() > 0);
        let Build { index, rpc_checked, git_checked, path, step } = self;
        let here = Build { index, rpc_checked, git_checked, path, step: BuildStep::Locate };
        match (step, reply) {
            (BuildStep::Locate, Reply::Located { path, present }) => {
                let found = Build { index, rpc_checked, git_checked, path, step: BuildStep::Locate };
                if !present {
                    found.at(BuildStep::Clone)
                } else if pkgbuild.uses_rpc() {
                    found.at(BuildStep::Rpc)
                } else {
                    found.at(BuildStep::Update)
                }
            },
            (BuildStep::Clone, Reply::Finished(said)) => match said {
                Ok(()) => here.at(BuildStep::Make { reason: "new clone".to_string() }),
                Err(cause) => Turn::Failed { failure: Failure::Outside { cause } },
            },
            (BuildStep::Rpc, Reply::Rpc(said)) => match said {
                Ok(response) => match get_rpc_version(&pkgbuild.artifacts[0], &response) {
                    Ok(version) => here.check(plan, version, 0),
                    Err(failure) => Turn::Failed { failure },
                },
                Err(cause) => Turn::Failed { failure: Failure::Outside { cause } },
            },
            (BuildStep::Update, Reply::Finished(said)) => match said {
                Ok(()) => here.at(BuildStep::Prepare),
                Err(cause) => Turn::Failed { failure: Failure::Outside { cause } },
            },
            (BuildStep::Prepare, Reply::Captured(said)) => match said {
                Ok(_) => here.at(BuildStep::Srcinfo),
                Err(cause) => Turn::Failed { failure: Failure::Outside { cause } },
            },
            (BuildStep::Srcinfo, Reply::Captured(said)) => match said {
                Ok(srcinfo) => match srcinfo_version(srcinfo.as_str()) {
                    Ok(version) => here.check(plan, version, 0),
                    Err(failure) => Turn::Failed { failure },
                },
                Err(cause) => Turn::Failed { failure: Failure::Outside { cause } },
            },
            (BuildStep::Version { version, artifact }, Reply::Captured(said)) => match said {
                Ok(text) => {
                    let found = split_words(text.as_str());
                    if found.len() < 2 {
                        Turn::Failed {
                            failure: Failure::NoInstalledVersion {
                                artifact: pkgbuild.artifacts[artifact].clone(),
                            },
                        }
                    } else {
                        let installed = found[1].clone();
                        assert(texts(found@)[1] == installed@);
                        here.at(BuildStep::Compare { version, artifact, installed })
                    }
                },
                Err(_) => {
                    let reason = pkgbuild.artifacts[artifact].clone().concat(" is not installed");
                    here.rebuild(plan, reason)
                },
            },
            (BuildStep::Compare { version, artifact, installed }, Reply::Compared(order)) => {
                let count: usize = pkgbuild.artifacts.len();
                assert(artifact < count);
                match order {
                    VersionOrder::Older => here.rebuild(
                        plan,
                        "version: ".to_string().concat(installed.as_str()).concat(" <- ").concat(
                            version.as_str(),
                        ),
                    ),
                    VersionOrder::Same => here.check(plan, version, artifact + 1),
                    VersionOrder::Newer => here.check(plan, version, artifact + 1),
                }
            },
            (BuildStep::Refresh { reason }, Reply::Finished(said)) => match said {
                Ok(()) => here.at(BuildStep::Make { reason }),
                Err(cause) => Turn::Failed { failure: Failure::Outside { cause } },
            },
            (BuildStep::Make { .. }, Reply::Exited(said)) => match said {
                Ok(true) => here.at(BuildStep::ListBuilt),
                Ok(false) => Turn::Failed { failure: Failure::NotBuilt { path: here.path } },
                Err(cause) => Turn::Failed { failure: Failure::Outside { cause } },
            },
            (BuildStep::ListBuilt, Reply::Captured(said)) => match said {
                Ok(raw) => {
                    let chosen: Vec<String> = Vec::new();
                    assert(texts(chosen@) =~= seq![]);
                    here.inspect(plan, lines_to_vec(raw.as_str()), 0, chosen)
                },
                Err(cause) => Turn::Failed { failure: Failure::Outside { cause } },
            },
            (BuildStep::Inspect { files, seen, chosen }, Reply::Captured(said)) => match said {
                Ok(details) => {
                    let count: usize = files.len();
                    assert(seen < count);
                    let found = split_words(details.as_str());
                    if found.len() == 0 {
                        Turn::Failed { failure: Failure::NotInspected { file: files[seen].clone() } }
                    } else {
                        assert(texts(found@)[0] == found@[0]@);
                        let mut chosen = chosen;
                        if has_name(pkgbuild.artifacts.as_slice(), &found[0]) {
                            proof {
                                lemma_texts_push(chosen@, files@[seen as int]);
                            }
                            chosen.push(files[seen].clone());
                        }
                        here.inspect(plan, files, seen + 1, chosen)
                    }
                },
                Err(cause) => Turn::Failed { failure: Failure::Outside { cause } },
            },
            (BuildStep::Install { .. }, Reply::Exited(said)) => match said {
                Ok(true) => here.finish(plan),
                Ok(false) => Turn::Failed {
                    failure: Failure::ArtifactsNotInstalled { path: here.path },
                },
                Err(cause) => Turn::Failed { failure: Failure::Outside { cause } },
            },
            (step, _) => Turn::On {
                step: Build { index, rpc_checked, git_checked, path: here.path, step },
            },
        }
    }
}

/// The AUR's version of a package is the one that it gives first, as it is. With
/// a count of none, or without any version, there is none.
pub proof fn law_rpc_version_is_the_first(artifact: Text, response: RpcResponseView)
    ensures
        response.resultcount > 0 && response.versions.len() > 0 ==> rpc_version(artifact, response)
            == Ok::<Text, FailureView>(response.versions[0]),
        response.resultcount == 0 ==> rpc_version(artifact, response) == Err::<Text, FailureView>(
            FailureView::NoRpcVersion { artifact },
        ),
        response.resultcount > 0 && response.versions.len() == 0 ==> rpc_version(artifact, response)
            == Err::<Text, FailureView>(FailureView::NoRpcResult { artifact }),
{
}

/// A line gives a value to a key without a space exactly if it starts with the key
/// and an equals sign between spaces; the value is the rest.
proof fn lemma_key_and_value(line: Text, key: Text)
    requires
        !key.contains(' '),
    ensures
        match split_at_first(line, " = "@) {
            Some((name, value)) => {
                &&& name == key ==> line == key + " = "@ + value
                &&& (key + " = "@).is_prefix_of(line) ==> name == key
            },
            None => !(key + " = "@).is_prefix_of(line),
        },
{
    reveal_strlit(" = ");
    law_split_is_at_the_first_mark(line, " = "@);
    let start = key + " = "@;
    if start.is_prefix_of(line) {
        let value = line.skip(start.len() as int);
        assert(line =~= key + " = "@ + value) by {
            assert forall|j: int| 0 <= j < start.len() implies line[j] == start[j] by {
                assert(line.subrange(0, start.len() as int)[j] == start[j]);
            }
        }
        assert forall|j: int| 0 <= j < key.len() implies #[trigger] (key + " = "@ + value).subrange(
            j,
            j + " = "@.len(),
        ) != " = "@ by {
            assert(key.contains(key[j]));
            assert((key + " = "@ + value).subrange(j, j + 3)[0] == key[j]);
            assert(" = "@[0] == ' ');
        }
        law_split_undoes_joining(key, " = "@, value);
    }
}

/// A key has the value that the first line with it gives, whatever lines stand
/// around that one; without such a line it has none.
pub proof fn law_first_line_of_a_key_counts(all: Seq<Text>, key: Text, i: int, value: Text)
    requires
        !key.contains(' '),
    ensures
        (forall|j: int|
            0 <= j < all.len() ==> !(key + " = "@).is_prefix_of(trimmed(#[trigger] all[j])))
            ==> field(all, key) is None,
        0 <= i < all.len() && trimmed(all[i]) == key + " = "@ + value && (forall|j: int|
            0 <= j < i ==> !(key + " = "@).is_prefix_of(trimmed(#[trigger] all[j]))) ==> field(
            all,
            key,
        ) == Some(value),
    decreases all.len(),
{
    let start = key + " = "@;
    if all.len() > 0 {
        let rest = all.skip(1);
        lemma_key_and_value(trimmed(all[0]), key);
        law_first_line_of_a_key_counts(rest, key, i - 1, value);
        if forall|j: int| 0 <= j < all.len() ==> !start.is_prefix_of(trimmed(#[trigger] all[j])) {
            assert(!start.is_prefix_of(trimmed(all[0])));
            assert forall|j: int| 0 <= j < rest.len() implies !start.is_prefix_of(
                trimmed(#[trigger] rest[j]),
            ) by {
                assert(rest[j] == all[j + 1]);
            }
            lemma_no_value(trimmed(all[0]), key);
        }
        if 0 <= i < all.len() && trimmed(all[i]) == start + value && (forall|j: int|
            0 <= j < i ==> !start.is_prefix_of(trimmed(#[trigger] all[j]))) {
            if i == 0 {
                assert(start.is_prefix_of(trimmed(all[0]))) by {
                    assert((start + value).subrange(0, start.len() as int) =~= start);
                }
                let found = split_at_first(trimmed(all[0]), " = "@).unwrap().1;
                assert((start + found).skip(start.len() as int) =~= found);
                assert((start + value).skip(start.len() as int) =~= value);
            } else {
                assert(!start.is_prefix_of(trimmed(all[0])));
                lemma_no_value(trimmed(all[0]), key);
                assert forall|j: int| 0 <= j < i - 1 implies !start.is_prefix_of(
                    trimmed(#[trigger] rest[j]),
                ) by {
                    assert(rest[j] == all[j + 1]);
                }
                assert(rest[i - 1] == all[i]);
            }
        }
    }
}

proof fn lemma_no_value(line: Text, key: Text)
    requires
        !key.contains(' '),
        !(key + " = "@).is_prefix_of(line),
    ensures
        split_at_first(line, " = "@) matches Some((name, _)) ==> name != key,
{
    let start = key + " = "@;
    lemma_key_and_value(line, key);
    if let Some((name, value)) = split_at_first(line, " = "@) {
        if name == key {
            assert((start + value).subrange(0, start.len() as int) =~= start);
        }
    }
}

/// A source's version is its `pkgver` and its `pkgrel` with a hyphen between, and
/// its `epoch` and a colon in front if it has one. It needs the first two.
pub proof fn law_version_is_put_together(srcinfo: Text)
    ensures
        ({
            let pkgver = field(lines(srcinfo), "pkgver"@);
            let pkgrel = field(lines(srcinfo), "pkgrel"@);
            let epoch = field(lines(srcinfo), "epoch"@);
            &&& pkgver is None ==> version_in(srcinfo) == Err::<Text, FailureView>(
                FailureView::NoPkgver,
            )
            &&& pkgver is Some && pkgrel is None ==> version_in(srcinfo) == Err::<
                Text,
                FailureView,
            >(FailureView::NoPkgrel)
            &&& pkgver is Some && pkgrel is Some && epoch is None ==> version_in(srcinfo) == Ok::<
                Text,
                FailureView,
            >(pkgver->0.push('-') + pkgrel->0)
            &&& pkgver is Some && pkgrel is Some && epoch is Some ==> version_in(srcinfo) == Ok::<
                Text,
                FailureView,
            >(epoch->0.push(':') + pkgver->0.push('-') + pkgrel->0)
        }),
{
    reveal_strlit(":");
    reveal_strlit("-");
    if let Some(pkgver) = field(lines(srcinfo), "pkgver"@) {
        if let Some(pkgrel) = field(lines(srcinfo), "pkgrel"@) {
            assert(pkgver + "-"@ + pkgrel =~= pkgver.push('-') + pkgrel);
            if let Some(epoch) = field(lines(srcinfo), "epoch"@) {
                assert(epoch + ":"@ + pkgver + "-"@ + pkgrel =~= epoch.push(':') + pkgver.push('-')
                    + pkgrel);
            }
        }
    }
}

/// The bases whose version is asked from the AUR are counted, and no others.
pub proof fn law_rpc_count(pkgbuilds: Seq<PkgbuildView>)
    ensures
        rpc_count(pkgbuilds) == pkgbuilds.filter(|base: PkgbuildView| base.uses_rpc()).len(),
    decreases pkgbuilds.len(),
{
    reveal(Seq::filter);
    if pkgbuilds.len() > 0 {
        law_rpc_count(pkgbuilds.drop_last());
    }
}

/// The bases come one after the other, none left out: after the one with number
/// `index - 1` comes the one with number `index`, counted in its way, until there
/// are no more.
pub proof fn law_bases_come_in_order(plan: PlanView, index: nat, rpc_checked: nat, git_checked: nat)
    ensures
        index >= plan.pkgbuilds.len() ==> bases_from(plan, index, rpc_checked, git_checked) is Over,
        index < plan.pkgbuilds.len() ==> (bases_from(
            plan,
            index,
            rpc_checked,
            git_checked,
        ) matches Turn::On { step } && {
            &&& step.index == index
            &&& step.step is Locate
            &&& step.pending(plan) == (ActionView::Locate {
                base: plan.pkgbuilds[index as int].base,
            })
            &&& plan.pkgbuilds[index as int].uses_rpc() ==> step.rpc_checked == rpc_checked + 1
                && step.git_checked == git_checked
            &&& !plan.pkgbuilds[index as int].uses_rpc() ==> step.rpc_checked == rpc_checked
                && step.git_checked == git_checked + 1
        }),
{
}

/// A base is left only when what was built of it is installed, or when its last
/// artifact has compared as not older; then the next base comes.
pub proof fn law_base_is_left_only_when_done(plan: PlanView, build: BuildView, reply: ReplyView)
    requires
        build.turn(plan, reply) is Over || (build.turn(plan, reply) matches Turn::On { step }
            && step.index != build.index),
    ensures
        match build.step {
            BuildStepView::Install { .. } => reply == ReplyView::Exited(Ok(true)),
            BuildStepView::Compare { artifact, .. } => {
                &&& artifact + 1 >= build.base(plan).artifacts.len()
                &&& reply matches ReplyView::Compared(order) && !(order is Older)
            },
            BuildStepView::Rpc => build.base(plan).artifacts.len() == 0,
            BuildStepView::Srcinfo => build.base(plan).artifacts.len() == 0,
            _ => false,
        },
        build.turn(plan, reply) is Over ==> build.index + 1 >= plan.pkgbuilds.len(),
        build.turn(plan, reply) matches Turn::On { step } ==> step.index == build.index + 1,
{
}

/// An artifact is asked about only after the one before it has compared as not
/// older, and the first only once the version is known.
pub proof fn law_artifacts_are_asked_in_order(
    plan: PlanView,
    build: BuildView,
    reply: ReplyView,
    later: BuildView,
)
    requires
        build.turn(plan, reply) == (Turn::<_, FailureView>::On { step: later }),
        later.step is Version,
        !(build.step is Version),
    ensures
        later.index == build.index,
        match build.step {
            BuildStepView::Compare { version, artifact, .. } => {
                &&& later.step == (BuildStepView::Version { version, artifact: artifact + 1 })
                &&& reply matches ReplyView::Compared(order) && !(order is Older)
            },
            BuildStepView::Rpc => {
                &&& later.step->Version_artifact == 0
                &&& reply matches ReplyView::Rpc(Ok(response)) && rpc_version(
                    build.base(plan).artifacts[0],
                    response,
                ) == Ok::<Text, FailureView>(later.step->Version_version)
            },
            BuildStepView::Srcinfo => {
                &&& later.step->Version_artifact == 0
                &&& reply matches ReplyView::Captured(Ok(srcinfo)) && version_in(srcinfo) == Ok::<
                    Text,
                    FailureView,
                >(later.step->Version_version)
            },
            _ => false,
        },
{
}

/// The same base, at another step.
pub open spec fn moved(build: BuildView, step: BuildStepView) -> Turn<BuildView, FailureView> {
    Turn::On { step: BuildView { step, ..build } }
}

/// A base whose repository is not there is cloned from its address and then
/// built. For any other one the version is found first: as the configuration says,
/// from the AUR or from the sources, which are brought up to date and prepared.
pub proof fn law_how_a_base_starts(
    plan: PlanView,
    build: BuildView,
    path: Text,
    output: Text,
    response: RpcResponseView,
)
    ensures
        ({
            let base = plan.pkgbuilds[build.index as int];
            let here = BuildView { path, ..build };
            let done = ReplyView::Finished(Ok(()));
            let absent = ReplyView::Located { path, present: false };
            let present = ReplyView::Located { path, present: true };
            let said = ReplyView::Captured(Ok(output));
            &&& build.step is Locate ==> {
                &&& build.pending(plan) == (ActionView::Locate { base: base.base })
                &&& build.turn(plan, absent) == moved(here, BuildStepView::Clone)
                &&& base.uses_rpc() ==> build.turn(plan, present) == moved(here, BuildStepView::Rpc)
                &&& !base.uses_rpc() ==> build.turn(plan, present) == moved(
                    here,
                    BuildStepView::Update,
                )
            }
            &&& build.step is Clone ==> {
                &&& build.pending(plan) == (ActionView::CloneRepository {
                    base: base.base,
                    url: base.url(),
                })
                &&& build.turn(plan, done) == moved(
                    build,
                    BuildStepView::Make { reason: "new clone"@ },
                )
            }
            &&& build.step is Update ==> {
                &&& build.pending(plan) == (ActionView::UpdateRepository { base: base.base })
                &&& build.turn(plan, done) == moved(build, BuildStepView::Prepare)
            }
            &&& build.step is Prepare ==> {
                &&& build.pending(plan) == (ActionView::Prepare { base: base.base })
                &&& build.turn(plan, said) == moved(build, BuildStepView::Srcinfo)
            }
            &&& build.step is Srcinfo ==> {
                &&& build.pending(plan) == (ActionView::PrintSrcinfo { base: base.base })
                &&& version_in(output) matches Ok(version) ==> (base.artifacts.len() > 0
                    ==> build.turn(plan, said) == moved(
                    build,
                    BuildStepView::Version { version, artifact: 0 },
                ))
                &&& version_in(output) matches Err(failure) ==> build.turn(plan, said) == (
                Turn::<BuildView, _>::Failed { failure })
            }
            &&& build.step is Rpc ==> {
                &&& build.pending(plan) == (ActionView::QueryRpc { artifact: base.artifacts[0] })
                &&& response.resultcount > 0 && response.versions.len() > 0 && base.artifacts.len()
                    > 0 ==> build.turn(plan, ReplyView::Rpc(Ok(response))) == moved(
                    build,
                    BuildStepView::Version { version: response.versions[0], artifact: 0 },
                )
                &&& response.resultcount == 0 ==> build.turn(plan, ReplyView::Rpc(Ok(response)))
                    == (Turn::<BuildView, _>::Failed {
                    failure: FailureView::NoRpcVersion { artifact: base.artifacts[0] },
                })
                &&& response.resultcount > 0 && response.versions.len() == 0 ==> build.turn(
                    plan,
                    ReplyView::Rpc(Ok(response)),
                ) == (Turn::<BuildView, _>::Failed {
                    failure: FailureView::NoRpcResult { artifact: base.artifacts[0] },
                })
            }
        }),
{
}

/// An artifact is held against the version: one that is not installed, or is
/// older, has the base built, and the reason says which. After one that is neither
/// comes the next one, and after the last the next base.
pub proof fn law_how_an_artifact_is_checked(
    plan: PlanView,
    build: BuildView,
    version: Text,
    artifact: nat,
    installed: Text,
    text: Text,
    cause: Text,
    order: VersionOrder,
)
    ensures
        ({
            let base = plan.pkgbuilds[build.index as int];
            let name = base.artifacts[artifact as int];
            let said = ReplyView::Captured(Ok(text));
            let due = |reason: Text|
                moved(
                    build,
                    if base.uses_rpc() {
                        BuildStepView::Refresh { reason }
                    } else {
                        BuildStepView::Make { reason }
                    },
                );
            &&& build.step == (BuildStepView::Version { version, artifact }) ==> {
                &&& build.pending(plan) == (ActionView::QueryVersion { artifact: name })
                &&& build.turn(plan, ReplyView::Captured(Err(cause))) == due(
                    name + " is not installed"@,
                )
                &&& words(text).len() >= 2 ==> build.turn(plan, said) == moved(
                    build,
                    BuildStepView::Compare { version, artifact, installed: words(text)[1] },
                )
                &&& words(text).len() < 2 ==> build.turn(plan, said) == (Turn::<
                    BuildView,
                    _,
                >::Failed { failure: FailureView::NoInstalledVersion { artifact: name } })
            }
            &&& build.step == (BuildStepView::Compare { version, artifact, installed }) ==> {
                &&& build.pending(plan) == (ActionView::CompareVersions {
                    artifact: name,
                    installed,
                    version,
                })
                &&& order is Older ==> build.turn(plan, ReplyView::Compared(order)) == due(
                    "version: "@ + installed + " <- "@ + version,
                )
                &&& !(order is Older) && artifact + 1 < base.artifacts.len() ==> build.turn(
                    plan,
                    ReplyView::Compared(order),
                ) == moved(build, BuildStepView::Version { version, artifact: artifact + 1 })
                &&& !(order is Older) && artifact + 1 >= base.artifacts.len() ==> build.turn(
                    plan,
                    ReplyView::Compared(order),
                ) == bases_from(
                    plan,
                    build.index + 1,
                    build.rpc_checked,
                    build.git_checked,
                )
            }
        }),
{
}

/// A base that is due is built, after an update where the sources were not brought
/// up to date yet. What was built is listed, each file is inspected, and those that
/// hold an artifact are installed if there is one for each; then the next base
/// comes.
pub proof fn law_how_a_base_is_built(
    plan: PlanView,
    build: BuildView,
    reason: Text,
    files: Seq<Text>,
    seen: nat,
    chosen: Seq<Text>,
    text: Text,
)
    ensures
        ({
            let base = plan.pkgbuilds[build.index as int];
            let said = ReplyView::Captured(Ok(text));
            let built = ReplyView::Exited(Ok(true));
            let not_built = ReplyView::Exited(Ok(false));
            let after_files = |chosen: Seq<Text>|
                if chosen.len() == base.artifacts.len() {
                    moved(build, BuildStepView::Install { files: chosen })
                } else {
                    Turn::Failed { failure: FailureView::ArtifactsMissing { path: build.path } }
                };
            &&& build.step == (BuildStepView::Refresh { reason }) ==> {
                &&& build.pending(plan) == (ActionView::UpdateRepository { base: base.base })
                &&& build.turn(plan, ReplyView::Finished(Ok(()))) == moved(
                    build,
                    BuildStepView::Make { reason },
                )
            }
            &&& build.step == (BuildStepView::Make { reason }) ==> {
                &&& build.pending(plan) == (ActionView::Build { base: base.base, reason })
                &&& build.turn(plan, built) == moved(build, BuildStepView::ListBuilt)
                &&& build.turn(plan, not_built) == (Turn::<BuildView, _>::Failed {
                    failure: FailureView::NotBuilt { path: build.path },
                })
            }
            &&& build.step is ListBuilt ==> {
                &&& build.pending(plan) == (ActionView::ListBuilt { base: base.base })
                &&& listed(text).len() > 0 ==> build.turn(plan, said) == moved(
                    build,
                    BuildStepView::Inspect { files: listed(text), seen: 0, chosen: seq![] },
                )
                &&& listed(text).len() == 0 ==> build.turn(plan, said) == after_files(seq![])
            }
            &&& build.step == (BuildStepView::Inspect { files, seen, chosen }) ==> {
                let file = files[seen as int];
                let more = if base.artifacts.contains(words(text)[0]) {
                    chosen.push(file)
                } else {
                    chosen
                };
                &&& build.pending(plan) == (ActionView::InspectFile { file })
                &&& words(text).len() == 0 ==> build.turn(plan, said) == (Turn::<
                    BuildView,
                    _,
                >::Failed { failure: FailureView::NotInspected { file } })
                &&& words(text).len() > 0 && seen + 1 < files.len() ==> build.turn(plan, said)
                    == moved(
                    build,
                    BuildStepView::Inspect { files, seen: seen + 1, chosen: more },
                )
                &&& words(text).len() > 0 && seen + 1 >= files.len() ==> build.turn(plan, said)
                    == after_files(more)
            }
            &&& build.step == (BuildStepView::Install { files }) ==> {
                &&& build.pending(plan) == (ActionView::InstallFiles { base: base.base, files })
                &&& build.turn(plan, built) == bases_from(
                    plan,
                    build.index + 1,
                    build.rpc_checked,
                    build.git_checked,
                )
                &&& build.turn(plan, not_built) == (Turn::<BuildView, _>::Failed {
                    failure: FailureView::ArtifactsNotInstalled { path: build.path },
                })
            }
        }),
{
}

/// Whatever goes wrong outside while a base is seen to ends the run, with its own
/// message. Only a version that cannot be asked for does not: its artifact counts
/// as not installed.
pub proof fn law_build_errors_end_the_run(plan: PlanView, build: BuildView, cause: Text)
    ensures
        ({
            let over = Turn::<BuildView, FailureView>::Failed {
                failure: FailureView::Outside { cause },
            };
            let finished = ReplyView::Finished(Err(cause));
            let captured = ReplyView::Captured(Err(cause));
            let exited = ReplyView::Exited(Err(cause));
            &&& build.step is Clone || build.step is Update || build.step is Refresh ==> build.turn(
                plan,
                finished,
            ) == over
            &&& build.step is Prepare || build.step is Srcinfo || build.step is ListBuilt
                || build.step is Inspect ==> build.turn(plan, captured) == over
            &&& build.step is Make || build.step is Install ==> build.turn(plan, exited) == over
            &&& build.step is Rpc ==> build.turn(plan, ReplyView::Rpc(Err(cause))) == over
        }),
{
}

/// The model of a step is the same step, with a text for each string.
pub proof fn law_build_step_model(step: BuildStep)
    ensures
        match step {
            BuildStep::Locate => step@ is Locate,
            BuildStep::Clone => step@ is Clone,
            BuildStep::Rpc => step@ is Rpc,
            BuildStep::Update => step@ is Update,
            BuildStep::Prepare => step@ is Prepare,
            BuildStep::Srcinfo => step@ is Srcinfo,
            BuildStep::Version { version, artifact } => step@ == (BuildStepView::Version {
                version: version@,
                artifact: artifact as nat,
            }),
            BuildStep::Compare { version, artifact, installed } => step@ == (
            BuildStepView::Compare {
                version: version@,
                artifact: artifact as nat,
                installed: installed@,
            }),
            BuildStep::Refresh { reason } => step@ == (BuildStepView::Refresh { reason: reason@ }),
            BuildStep::Make { reason } => step@ == (BuildStepView::Make { reason: reason@ }),
            BuildStep::ListBuilt => step@ is ListBuilt,
            BuildStep::Inspect { files, seen, chosen } => step@ == (BuildStepView::Inspect {
                files: texts(files@),
                seen: seen as nat,
                chosen: texts(chosen@),
            }),
            BuildStep::Install { files } => step@ == (BuildStepView::Install {
                files: texts(files@),
            }),
        },
{
}

/// The model of a base that a run is at holds all that is known of it.
pub proof fn law_build_model(build: Build)
    ensures
        build@.index == build.index,
        build@.rpc_checked == build.rpc_checked,
        build@.git_checked == build.git_checked,
        build@.path == build.path@,
        build@.step == build.step@,
{
}

} // verus!
