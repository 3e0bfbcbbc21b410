//! What the user asks for.
use crate::names::copy_names;
use crate::text::{texts, Text};
use vstd::prelude::*;

verus! {

/// The site of the Arch User Repository.
pub const AUR_URL: &'static str = "https://aur.archlinux.org";

/// The model of a string that may be missing.
pub open spec fn optional(text: Option<String>) -> Option<Text> {
    match text {
        Some(text) => Some(text@),
        None => None,
    }
}

/// The model of `Pkgbuild`.
#[verifier::ext_equal]
pub struct PkgbuildView {
    pub base: Text,
    pub artifacts: Seq<Text>,
    pub git: Option<Text>,
    pub rpc: Option<bool>,
}

/// A package base that is built from source.
#[derive(Debug, PartialEq, Eq)]
pub struct Pkgbuild {
    /// The package base: the name of its repository.
    pub base: String,
    /// The packages of the base that are to be installed.
    pub artifacts: Vec<String>,
    /// The address of the repository, if it is not on the AUR.
    pub git: Option<String>,
    /// Whether the version is asked from the AUR, if that is set.
    pub rpc: Option<bool>,
}

impl View for Pkgbuild {
    type V = PkgbuildView;

    open spec fn view(&self) -> PkgbuildView {
        PkgbuildView {
            base: self.base@,
            artifacts: texts(self.artifacts@),
            git: optional(self.git),
            rpc: self.rpc,
        }
    }
}

/// The address of the repository of a base on the AUR.
pub open spec fn aur_git(base: Text) -> Text {
    AUR_URL@ + "/"@ + base + ".git"@
}

impl PkgbuildView {
    /// The address of the repository.
    pub open spec fn url(self) -> Text {
        match self.git {
            Some(git) => git,
            None => aur_git(self.base),
        }
    }

    /// Whether the version is asked from the AUR: as it is set, else unless the
    /// repository is somewhere else.
    pub open spec fn uses_rpc(self) -> bool {
        match self.rpc {
            Some(rpc) => rpc,
            None => self.git is None,
        }
    }
}

/// The address of the repository of a base on the AUR.
pub fn get_aur_git(base: &str) -> (url: String)
    ensures
        url@ == aur_git(base@),
        url@ == "https://aur.archlinux.org/"@ + base@ + ".git"@,
{
    proof {
        lemma_aur_git(base@);
    }
    AUR_URL.to_string().concat("/").concat(base).concat(".git")
}

/// The address at which the AUR is asked about packages.
pub fn rpc_url() -> (url: String)
    ensures
        url@ == AUR_URL@ + "/rpc/v5/info"@,
        url@ == "https://aur.archlinux.org/rpc/v5/info"@,
{
    proof {
        reveal_strlit("https://aur.archlinux.org");
        reveal_strlit("/rpc/v5/info");
        reveal_strlit("https://aur.archlinux.org/rpc/v5/info");
        assert(AUR_URL@ + "/rpc/v5/info"@ =~= "https://aur.archlinux.org/rpc/v5/info"@);
    }
    AUR_URL.to_string().concat("/rpc/v5/info")
}

impl Pkgbuild {
    /// The address of the repository.
    pub fn url(&self) -> (url: String)
        ensures
            url@ == self@.url(),
            self.git matches Some(git) ==> url@ == git@,
            self.git is None ==> url@ == "https://aur.archlinux.org/"@ + self.base@ + ".git"@,
    {
        match &self.git {
            Some(git) => git.clone(),
            None => get_aur_git(self.base.as_str()),
        }
    }

    /// Whether the version is asked from the AUR.
    pub fn uses_rpc(&self) -> (yes: bool)
        ensures
            yes == self@.uses_rpc(),
            self.rpc matches Some(rpc) ==> yes == rpc,
            self.rpc is None ==> yes == self.git is None,
    {
        match self.rpc {
            Some(rpc) => rpc,
            None => self.git.is_none(),
        }
    }
}

/// The model of `Calibre`.
pub enum CalibreView {
    Simple(Text),
    Complex(PkgbuildView),
}

/// A package base, as it is configured: its name, or the whole of it.
#[derive(Debug, PartialEq, Eq)]
pub enum Calibre {
    Simple(String),
    Complex(Pkgbuild),
}

impl View for Calibre {
    type V = CalibreView;

    open spec fn view(&self) -> CalibreView {
        match self {
            Calibre::Simple(base) => CalibreView::Simple(base@),
            Calibre::Complex(pkgbuild) => CalibreView::Complex(pkgbuild@),
        }
    }
}

impl CalibreView {
    /// The whole of a package base. One for which no artifacts are given has
    /// its own name as the only one.
    pub open spec fn complexified(self) -> PkgbuildView {
        match self {
            CalibreView::Simple(base) => PkgbuildView {
                base,
                artifacts: seq![base],
                git: None,
                rpc: None,
            },
            CalibreView::Complex(pkgbuild) => if pkgbuild.artifacts.len() == 0 {
                PkgbuildView { artifacts: seq![pkgbuild.base], ..pkgbuild }
            } else {
                pkgbuild
            },
        }
    }
}

impl Calibre {
    /// The whole of a package base.
    pub fn complexify(self) -> (pkgbuild: Pkgbuild)
        ensures
            pkgbuild@ == self@.complexified(),
            pkgbuild@.artifacts.len() > 0,
            match self {
                Calibre::Simple(base) => {
                    &&& pkgbuild.base@ == base@
                    &&& texts(pkgbuild.artifacts@) == seq![base@]
                    &&& pkgbuild.git is None
                    &&& pkgbuild.rpc is None
                },
                Calibre::Complex(given) => {
                    &&& pkgbuild.base@ == given.base@
                    &&& given.artifacts@.len() == 0 ==> texts(pkgbuild.artifacts@) == seq![
                        given.base@,
                    ]
                    &&& given.artifacts@.len() > 0 ==> pkgbuild.artifacts@ == given.artifacts@
                    &&& pkgbuild.git == given.git
                    &&& pkgbuild.rpc == given.rpc
                },
            },
    {
        match self {
            Calibre::Simple(base) => {
                let mut artifacts: Vec<String> = Vec::new();
                artifacts.push(base.clone());
                assert(texts(artifacts@) =~= seq![base@]);
                Pkgbuild { base, artifacts, git: None, rpc: None }
            },
            Calibre::Complex(pkgbuild) => {
                let mut pkgbuild = pkgbuild;
                if pkgbuild.artifacts.is_empty() {
                    pkgbuild.artifacts.push(pkgbuild.base.clone());
                    assert(texts(pkgbuild.artifacts@) =~= seq![pkgbuild.base@]);
                }
                pkgbuild
            },
        }
    }
}

/// The model of `Settings`.
pub struct SettingsView {
    pub elevation: Text,
    pub package_removal_confirmation_count: u32,
    pub default_true_confirmation: bool,
}

/// How to go about it.
#[derive(Debug, PartialEq, Eq)]
pub struct Settings {
    /// The command that runs another one as the superuser.
    pub elevation: String,
    /// How many packages may be removed without a question.
    pub package_removal_confirmation_count: u32,
    /// What a blank answer means.
    pub default_true_confirmation: bool,
}

impl View for Settings {
    type V = SettingsView;

    open spec fn view(&self) -> SettingsView {
        SettingsView {
            elevation: self.elevation@,
            package_removal_confirmation_count: self.package_removal_confirmation_count,
            default_true_confirmation: self.default_true_confirmation,
        }
    }
}

impl Clone for Settings {
    fn clone(&self) -> (copy: Self)
        ensures
            copy@ == self@,
            copy.elevation@ == self.elevation@,
            copy.package_removal_confirmation_count == self.package_removal_confirmation_count,
            copy.default_true_confirmation == self.default_true_confirmation,
    {
        Settings {
            elevation: self.elevation.clone(),
            package_removal_confirmation_count: self.package_removal_confirmation_count,
            default_true_confirmation: self.default_true_confirmation,
        }
    }
}

/// How many packages may be removed without a question, if that is not set.
pub fn default_packages() -> (count: u32)
    ensures
        count == 0,
{
    0
}

/// The command that elevates, if it is not set.
pub fn default_elevation() -> (command: String)
    ensures
        command@ == "sudo"@,
{
    "sudo".to_string()
}

/// What a blank answer means, if that is not set.
pub fn default_true() -> (yes: bool)
    ensures
        yes,
{
    true
}

impl Default for Settings {
    fn default() -> (settings: Self)
        ensures
            settings@ == (SettingsView {
                elevation: "sudo"@,
                package_removal_confirmation_count: 0,
                default_true_confirmation: true,
            }),
            settings.elevation@ == "sudo"@,
            settings.package_removal_confirmation_count == 0,
            settings.default_true_confirmation,
    {
        Settings {
            elevation: default_elevation(),
            package_removal_confirmation_count: default_packages(),
            default_true_confirmation: default_true(),
        }
    }
}

/// The models of a list of configured bases.
pub open spec fn calibre_views(list: Seq<Calibre>) -> Seq<CalibreView> {
    list.map_values(|calibre: Calibre| calibre@)
}

/// The models of a list of bases.
pub open spec fn pkgbuild_views(list: Seq<Pkgbuild>) -> Seq<PkgbuildView> {
    list.map_values(|pkgbuild: Pkgbuild| pkgbuild@)
}

/// The model of `Config`.
pub struct ConfigView {
    pub packages: Seq<Text>,
    pub pkgbuilds: Seq<CalibreView>,
    pub ignore: Seq<Text>,
    pub settings: SettingsView,
}

/// A configuration, as it is written.
#[derive(Debug, PartialEq, Eq)]
pub struct Config {
    /// The packages to install.
    pub packages: Vec<String>,
    /// The package bases to build.
    pub pkgbuilds: Vec<Calibre>,
    /// The packages to leave alone: they are neither removed, nor installed, nor
    /// marked, even if `packages` names them too. The artifacts of a base are the
    /// exception: they are part of what is built, so one that stands here as well
    /// is still checked, built and installed with its base.
    pub ignore: Vec<String>,
    pub settings: Settings,
}

impl View for Config {
    type V = ConfigView;

    open spec fn view(&self) -> ConfigView {
        ConfigView {
            packages: texts(self.packages@),
            pkgbuilds: calibre_views(self.pkgbuilds@),
            ignore: texts(self.ignore@),
            settings: self.settings@,
        }
    }
}

/// The model of `Plan`.
#[verifier::ext_equal]
pub struct PlanView {
    pub packages: Seq<Text>,
    pub pkgbuilds: Seq<PkgbuildView>,
    pub ignore: Seq<Text>,
    pub settings: SettingsView,
}

/// A configuration in which every package base is whole.
#[derive(Debug, PartialEq, Eq)]
pub struct Plan {
    pub packages: Vec<String>,
    pub pkgbuilds: Vec<Pkgbuild>,
    pub ignore: Vec<String>,
    pub settings: Settings,
}

impl View for Plan {
    type V = PlanView;

    open spec fn view(&self) -> PlanView {
        PlanView {
            packages: texts(self.packages@),
            pkgbuilds: pkgbuild_views(self.pkgbuilds@),
            ignore: texts(self.ignore@),
            settings: self.settings@,
        }
    }
}

/// The artifacts of all the bases, in order.
pub open spec fn all_artifacts(pkgbuilds: Seq<PkgbuildView>) -> Seq<Text>
    decreases pkgbuilds.len(),
{
    if pkgbuilds.len() == 0 {
        seq![]
    } else {
        all_artifacts(pkgbuilds.drop_last()) + pkgbuilds.last().artifacts
    }
}

impl PlanView {
    /// Every base has an artifact.
    pub open spec fn well_formed(self) -> bool {
        forall|i: int|
            0 <= i < self.pkgbuilds.len() ==> (#[trigger] self.pkgbuilds[i]).artifacts.len() > 0
    }

    /// The packages that the configuration asks for.
    pub open spec fn desired(self) -> Seq<Text> {
        self.packages + all_artifacts(self.pkgbuilds)
    }
}

impl ConfigView {
    /// The configuration with every package base made whole.
    pub open spec fn normalised(self) -> PlanView {
        PlanView {
            packages: self.packages,
            pkgbuilds: self.pkgbuilds.map_values(|calibre: CalibreView| calibre.complexified()),
            ignore: self.ignore,
            settings: self.settings,
        }
    }
}

impl Config {
    /// Makes every package base whole.
    pub fn normalise(self) -> (plan: Plan)
        ensures
            plan@ == self@.normalised(),
            plan@.well_formed(),
            plan.packages == self.packages,
            plan.ignore == self.ignore,
            plan.settings == self.settings,
            plan.pkgbuilds@.len() == self.pkgbuilds@.len(),
            forall|i: int|
                0 <= i < self.pkgbuilds@.len() ==> (#[trigger] plan.pkgbuilds@[i])@
                    == self.pkgbuilds@[i]@.complexified(),
    {
        let ghost whole = self@.normalised().pkgbuilds;
        let ghost given = self.pkgbuilds@;
        let Config { packages, pkgbuilds, ignore, settings } = self;
        let mut ordered: Vec<Pkgbuild> = Vec::new();
        for calibre in it: pkgbuilds
            invariant
                it.seq() == given,
                whole == calibre_views(given).map_values(|c: CalibreView| c.complexified()),
                ordered@.len() == it.index(),
                forall|i: int| 0 <= i < ordered@.len() ==> (#[trigger] ordered@[i])@ == whole[i],
                forall|i: int|
                    0 <= i < ordered@.len() ==> (#[trigger] ordered@[i])@.artifacts.len() > 0,
        {
            assert(calibre_views(given)[it.index()] == calibre@);
            ordered.push(calibre.complexify());
        }
        proof {
            assert(pkgbuild_views(ordered@) =~= whole);
            assert forall|i: int| 0 <= i < given.len() implies (#[trigger] ordered@[i])@
                == given[i]@.complexified() by {
                assert(calibre_views(given)[i] == given[i]@);
            }
        }
        Plan { packages, pkgbuilds: ordered, ignore, settings }
    }
}

impl Plan {
    /// The packages that the configuration asks for.
    pub fn desired(&self) -> (names: Vec<String>)
        ensures
            texts(names@) == self@.desired(),
    {
        let mut names = copy_names(self.packages.as_slice());
        let ghost bases = pkgbuild_views(self.pkgbuilds@);
        let mut i: usize = 0;
        proof {
            assert(self@.packages + all_artifacts(bases.take(0)) =~= self@.packages);
        }
        while i < self.pkgbuilds.len()
            invariant
                i <= self.pkgbuilds@.len(),
                bases == pkgbuild_views(self.pkgbuilds@),
                texts(names@) == self@.packages + all_artifacts(bases.take(i as int)),
            decreases self.pkgbuilds@.len() - i,
        {
            let ghost before = names@;
            let mut artifacts = copy_names(self.pkgbuilds[i].artifacts.as_slice());
            let ghost added = artifacts@;
            names.append(&mut artifacts);
            proof {
                assert(bases.take(i + 1).drop_last() =~= bases.take(i as int));
                assert(texts(names@) =~= texts(before) + texts(added));
                assert(texts(names@) =~= self@.packages + all_artifacts(bases.take(i + 1)));
            }
            i = i + 1;
        }
        proof {
            assert(bases.take(i as int) =~= bases);
        }
        names
    }
}

/// A base that is given by its name alone is the base of that name with
/// nothing else set.
pub proof fn law_name_is_short_for_base(base: Text)
    ensures
        CalibreView::Simple(base).complexified() == CalibreView::Complex(
            PkgbuildView { base, artifacts: seq![], git: None, rpc: None },
        ).complexified(),
{
}

/// Making a base whole adds artifacts and changes nothing else; doing it again
/// changes nothing.
pub proof fn law_complexify_only_adds_artifacts(pkgbuild: PkgbuildView)
    ensures
        ({
            let whole = CalibreView::Complex(pkgbuild).complexified();
            &&& whole.base == pkgbuild.base
            &&& whole.git == pkgbuild.git
            &&& whole.rpc == pkgbuild.rpc
            &&& whole.artifacts.len() > 0
            &&& pkgbuild.artifacts.len() > 0 ==> whole == pkgbuild
            &&& CalibreView::Complex(whole).complexified() == whole
        }),
{
}

/// The AUR is asked for the version where the configuration says so; where it
/// says nothing, exactly if the base is on the AUR.
pub proof fn law_rpc_default(pkgbuild: PkgbuildView)
    ensures
        pkgbuild.rpc matches Some(rpc) ==> pkgbuild.uses_rpc() == rpc,
        pkgbuild.rpc is None && pkgbuild.git is Some ==> !pkgbuild.uses_rpc(),
        pkgbuild.rpc is None && pkgbuild.git is None ==> pkgbuild.uses_rpc() && pkgbuild.url()
            == aur_git(pkgbuild.base),
{
}

/// The artifacts of a base are desired.
pub proof fn law_artifacts_are_desired(plan: PlanView, i: int, k: int)
    requires
        0 <= i < plan.pkgbuilds.len(),
        0 <= k < plan.pkgbuilds[i].artifacts.len(),
    ensures
        plan.desired().contains(plan.pkgbuilds[i].artifacts[k]),
{
    let all = all_artifacts(plan.pkgbuilds);
    lemma_artifact_is_listed(plan.pkgbuilds, i, k);
    let j = choose|j: int| 0 <= j < all.len() && all[j] == plan.pkgbuilds[i].artifacts[k];
    assert(plan.desired()[plan.packages.len() + j] == all[j]);
}

proof fn lemma_artifact_is_listed(pkgbuilds: Seq<PkgbuildView>, i: int, k: int)
    requires
        0 <= i < pkgbuilds.len(),
        0 <= k < pkgbuilds[i].artifacts.len(),
    ensures
        all_artifacts(pkgbuilds).contains(pkgbuilds[i].artifacts[k]),
    decreases pkgbuilds.len(),
{
    let shorter = pkgbuilds.drop_last();
    let earlier = all_artifacts(shorter);
    if i < shorter.len() {
        lemma_artifact_is_listed(shorter, i, k);
        let j = choose|j: int| 0 <= j < earlier.len() && earlier[j] == pkgbuilds[i].artifacts[k];
        assert(all_artifacts(pkgbuilds)[j] == earlier[j]);
    } else {
        assert(all_artifacts(pkgbuilds)[earlier.len() + k] == pkgbuilds[i].artifacts[k]);
    }
}

/// The repository of a base is where the configuration says; without a word on
/// it, it is the one of that name on the AUR.
pub proof fn law_url(pkgbuild: PkgbuildView)
    ensures
        pkgbuild.git matches Some(git) ==> pkgbuild.url() == git,
        pkgbuild.git is None ==> pkgbuild.url() == "https://aur.archlinux.org/"@ + pkgbuild.base
            + ".git"@,
{
    lemma_aur_git(pkgbuild.base);
}

proof fn lemma_aur_git(base: Text)
    ensures
        aur_git(base) == "https://aur.archlinux.org/"@ + base + ".git"@,
{
    reveal_strlit("https://aur.archlinux.org");
    reveal_strlit("/");
    reveal_strlit("https://aur.archlinux.org/");
    assert(AUR_URL@ + "/"@ =~= "https://aur.archlinux.org/"@);
}

/// A base without artifacts is its own only one; so is one that is given by its
/// name.
pub proof fn law_base_is_its_own_artifact(pkgbuild: PkgbuildView)
    requires
        pkgbuild.artifacts.len() == 0,
    ensures
        CalibreView::Complex(pkgbuild).complexified().artifacts == seq![pkgbuild.base],
        CalibreView::Simple(pkgbuild.base).complexified().artifacts == seq![pkgbuild.base],
        CalibreView::Simple(pkgbuild.base).complexified().base == pkgbuild.base,
{
}

/// What is asked for is what is named, and every artifact of every base; nothing
/// else is.
pub proof fn law_desired(plan: PlanView, name: Text)
    ensures
        plan.desired().contains(name) <==> {
            ||| plan.packages.contains(name)
            ||| exists|i: int|
                0 <= i < plan.pkgbuilds.len() && (#[trigger] plan.pkgbuilds[i]).artifacts.contains(
                    name,
                )
        },
{
    let all = all_artifacts(plan.pkgbuilds);
    if plan.packages.contains(name) {
        let k = choose|k: int| 0 <= k < plan.packages.len() && plan.packages[k] == name;
        assert(plan.desired()[k] == name);
    }
    if exists|i: int|
        0 <= i < plan.pkgbuilds.len() && (#[trigger] plan.pkgbuilds[i]).artifacts.contains(name) {
        let i = choose|i: int|
            0 <= i < plan.pkgbuilds.len() && (#[trigger] plan.pkgbuilds[i]).artifacts.contains(
                name,
            );
        let k = choose|k: int|
            0 <= k < plan.pkgbuilds[i].artifacts.len() && plan.pkgbuilds[i].artifacts[k] == name;
        law_artifacts_are_desired(plan, i, k);
    }
    if plan.desired().contains(name) {
        let k = choose|k: int| 0 <= k < plan.desired().len() && plan.desired()[k] == name;
        if k < plan.packages.len() {
            assert(plan.packages[k] == name);
        } else {
            assert(all[k - plan.packages.len()] == name);
            lemma_artifact_has_a_base(plan.pkgbuilds, name);
        }
    }
}

proof fn lemma_artifact_has_a_base(pkgbuilds: Seq<PkgbuildView>, name: Text)
    requires
        all_artifacts(pkgbuilds).contains(name),
    ensures
        exists|i: int|
            0 <= i < pkgbuilds.len() && (#[trigger] pkgbuilds[i]).artifacts.contains(name),
    decreases pkgbuilds.len(),
{
    let all = all_artifacts(pkgbuilds);
    let k = choose|k: int| 0 <= k < all.len() && all[k] == name;
    let shorter = pkgbuilds.drop_last();
    let earlier = all_artifacts(shorter);
    if k < earlier.len() {
        assert(earlier[k] == name);
        lemma_artifact_has_a_base(shorter, name);
        let i = choose|i: int|
            0 <= i < shorter.len() && (#[trigger] shorter[i]).artifacts.contains(name);
        assert(pkgbuilds[i].artifacts.contains(name));
    } else {
        assert(pkgbuilds.last().artifacts[k - earlier.len()] == name);
        assert(pkgbuilds[pkgbuilds.len() - 1].artifacts.contains(name));
    }
}

/// The model of a base holds all that the base does.
pub proof fn law_pkgbuild_model(pkgbuild: Pkgbuild)
    ensures
        pkgbuild@.base == pkgbuild.base@,
        pkgbuild@.artifacts == texts(pkgbuild.artifacts@),
        pkgbuild.git matches Some(git) ==> pkgbuild@.git == Some(git@),
        pkgbuild.git is None ==> pkgbuild@.git is None,
        pkgbuild@.rpc == pkgbuild.rpc,
{
}

/// The model of a plan holds all that the plan does.
pub proof fn law_plan_model(plan: Plan)
    ensures
        plan@.packages == texts(plan.packages@),
        plan@.ignore == texts(plan.ignore@),
        plan@.pkgbuilds.len() == plan.pkgbuilds@.len(),
        forall|i: int|
            0 <= i < plan.pkgbuilds@.len() ==> #[trigger] plan@.pkgbuilds[i]
                == plan.pkgbuilds@[i]@,
        plan@.settings.elevation == plan.settings.elevation@,
        plan@.settings.package_removal_confirmation_count
            == plan.settings.package_removal_confirmation_count,
        plan@.settings.default_true_confirmation == plan.settings.default_true_confirmation,
{
}

/// The model of a configured base is the name of the base, or the whole of it.
pub proof fn law_calibre_model(calibre: Calibre)
    ensures
        calibre matches Calibre::Simple(base) ==> calibre@ == CalibreView::Simple(base@),
        calibre matches Calibre::Complex(pkgbuild) ==> calibre@ == CalibreView::Complex(pkgbuild@),
{
}

} // verus!
