//! The packages of a run: what to remove, and what to install.
use crate::action::{Action, ActionView};
use crate::config::{Plan, PlanView};
use crate::failure::{Failure, FailureView};
use crate::names::{
    copy_names, inside, law_a_line_lists_a_name, law_subtract_keeps_the_rest, lemma_filter_take,
    lines_to_vec, listed, name_set, outside, subtract, without,
};
use crate::removal::{
    check_package_warn_limit, confirmed, confirms, filter_removable, get_required_by, held_views,
    leaving, nested, required_in, staying, within_limit, Held, HeldView, Removable,
};
use crate::reply::{Reply, ReplyView, Turn};
use crate::text::{law_trim_cuts_blanks, lemma_texts_push, lines, on_one_line, texts, Text};
use vstd::prelude::*;

verus! {

/// The model of `PackageStep`.
pub enum PackageStepView {
    Orphans,
    ConfirmOrphans { packages: Seq<Text> },
    RemoveOrphans { packages: Seq<Text> },
    Explicit,
    ConfirmRemoval { candidates: Seq<Text> },
    Requirers { candidates: Seq<Text>, required_by: Seq<Seq<Text>> },
    Demote { staying: Seq<HeldView>, done: nat, leaving: Seq<Text> },
    Remove { packages: Seq<Text> },
    Wanted,
    Installed { wanted: Seq<Text> },
    Promote { present: Seq<Text>, done: nat, missing: Seq<Text> },
    Upgrade { packages: Seq<Text> },
}

/// How far the packages are.
#[derive(Debug, PartialEq, Eq)]
pub enum PackageStep {
    /// The dependencies that nothing requires are being listed.
    Orphans,
    /// The user is asked whether they may go.
    ConfirmOrphans { packages: Vec<String> },
    /// They are being removed.
    RemoveOrphans { packages: Vec<String> },
    /// The packages that were installed for their own sake are being listed.
    Explicit,
    /// The user is asked whether those that are no longer specified may go.
    ConfirmRemoval { candidates: Vec<String> },
    /// What requires each of them is being asked, one after the other.
    Requirers { candidates: Vec<String>, required_by: Vec<Vec<String>> },
    /// Those that are held back are being marked as dependencies.
    Demote { staying: Vec<Held>, done: usize, leaving: Vec<String> },
    /// The others are being removed.
    Remove { packages: Vec<String> },
    /// The packages that were installed for their own sake are being listed again.
    Wanted,
    /// All the packages that are installed are being listed.
    Installed { wanted: Vec<String> },
    /// Those that are installed are being marked as explicit.
    Promote { present: Vec<String>, done: usize, missing: Vec<String> },
    /// The system is being upgraded, and the others installed.
    Upgrade { packages: Vec<String> },
}

impl View for PackageStep {
    type V = PackageStepView;

    open spec fn view(&self) -> PackageStepView {
        match self {
            PackageStep::Orphans => PackageStepView::Orphans,
            PackageStep::ConfirmOrphans { packages } => PackageStepView::ConfirmOrphans {
                packages: texts(packages@),
            },
            PackageStep::RemoveOrphans { packages } => PackageStepView::RemoveOrphans {
                packages: texts(packages@),
            },
            PackageStep::Explicit => PackageStepView::Explicit,
            PackageStep::ConfirmRemoval { candidates } => PackageStepView::ConfirmRemoval {
                candidates: texts(candidates@),
            },
            PackageStep::Requirers { candidates, required_by } => PackageStepView::Requirers {
                candidates: texts(candidates@),
                required_by: nested(required_by@),
            },
            PackageStep::Demote { staying, done, leaving } => PackageStepView::Demote {
                staying: held_views(staying@),
                done: *done as nat,
                leaving: texts(leaving@),
            },
            PackageStep::Remove { packages } => PackageStepView::Remove {
                packages: texts(packages@),
            },
            PackageStep::Wanted => PackageStepView::Wanted,
            PackageStep::Installed { wanted } => PackageStepView::Installed {
                wanted: texts(wanted@),
            },
            PackageStep::Promote { present, done, missing } => PackageStepView::Promote {
                present: texts(present@),
                done: *done as nat,
                missing: texts(missing@),
            },
            PackageStep::Upgrade { packages } => PackageStepView::Upgrade {
                packages: texts(packages@),
            },
        }
    }
}

/// The model of where the packages go next.
pub open spec fn package_turn_view(turn: Turn<PackageStep, Failure>) -> Turn<
    PackageStepView,
    FailureView,
> {
    match turn {
        Turn::On { step } => Turn::On { step: step@ },
        Turn::Over => Turn::Over,
        Turn::Failed { failure } => Turn::Failed { failure: failure@ },
    }
}

/// On with a step.
pub open spec fn on(step: PackageStepView) -> Turn<PackageStepView, FailureView> {
    Turn::On { step }
}

/// Over, with the message of an outside error.
pub open spec fn broken(cause: Text) -> Turn<PackageStepView, FailureView> {
    Turn::Failed { failure: FailureView::Outside { cause } }
}

/// The dependencies that nothing requires, but for those to leave alone. If
/// they cannot be listed, there are none.
pub open spec fn unused(plan: PlanView, said: Result<Text, Text>) -> Seq<Text> {
    match said {
        Ok(raw) => without(listed(raw), plan.ignore),
        Err(_) => without(listed(seq![]), plan.ignore),
    }
}

/// The installed packages that are neither desired nor to be left alone.
pub open spec fn unspecified(plan: PlanView, raw: Text) -> Seq<Text> {
    without(without(listed(raw), plan.desired()), plan.ignore)
}

/// The packages to install that are neither installed for their own sake nor to
/// be left alone.
pub open spec fn lacking(plan: PlanView, raw: Text) -> Seq<Text> {
    without(without(plan.packages, listed(raw)), plan.ignore)
}

/// The wanted packages that are installed already.
pub open spec fn already_there(wanted: Seq<Text>, raw: Text) -> Seq<Text> {
    wanted.filter(inside(listed(raw)))
}

/// Does the removal of so many packages go ahead without a question?
pub open spec fn unquestioned(plan: PlanView, packages: Seq<Text>) -> bool {
    within_limit(packages.len(), plan.settings.package_removal_confirmation_count)
}

/// The removal of these candidates starts: what requires them comes first.
pub open spec fn start_removal(candidates: Seq<Text>) -> PackageStepView {
    if candidates.len() == 0 {
        PackageStepView::Wanted
    } else {
        PackageStepView::Requirers { candidates, required_by: seq![] }
    }
}

/// The packages are removed, if there are any.
pub open spec fn finish_removal(packages: Seq<Text>) -> PackageStepView {
    if packages.len() == 0 {
        PackageStepView::Wanted
    } else {
        PackageStepView::Remove { packages }
    }
}

/// The next package is marked as a dependency; after the last, the others go.
pub open spec fn demote_from(
    staying: Seq<HeldView>,
    done: nat,
    leaving: Seq<Text>,
) -> PackageStepView {
    if done < staying.len() {
        PackageStepView::Demote { staying, done, leaving }
    } else {
        finish_removal(leaving)
    }
}

/// The next package is marked as explicit; after the last, the others come.
pub open spec fn promote_from(
    present: Seq<Text>,
    done: nat,
    missing: Seq<Text>,
) -> PackageStepView {
    if done < present.len() {
        PackageStepView::Promote { present, done, missing }
    } else {
        PackageStepView::Upgrade { packages: missing }
    }
}

impl PackageStepView {
    /// The counters of the step are in range.
    pub open spec fn well_formed(self) -> bool {
        match self {
            PackageStepView::Requirers { candidates, required_by } => required_by.len()
                < candidates.len(),
            PackageStepView::Demote { staying, done, .. } => done < staying.len(),
            PackageStepView::Promote { present, done, .. } => done < present.len(),
            _ => true,
        }
    }

    /// What the step waits for.
    pub open spec fn pending(self, plan: PlanView) -> ActionView {
        let default = plan.settings.default_true_confirmation;
        match self {
            PackageStepView::Orphans => ActionView::ListOrphans,
            PackageStepView::ConfirmOrphans { packages } => ActionView::Confirm {
                packages,
                default,
            },
            PackageStepView::RemoveOrphans { packages } => ActionView::Remove { packages },
            PackageStepView::Explicit => ActionView::ListExplicit,
            PackageStepView::ConfirmRemoval { candidates } => ActionView::Confirm {
                packages: candidates,
                default,
            },
            PackageStepView::Requirers { candidates, required_by } => ActionView::QueryPackage {
                package: candidates[required_by.len() as int],
            },
            PackageStepView::Demote { staying, done, .. } => ActionView::MarkDependency {
                package: staying[done as int].package,
                required_by: staying[done as int].required_by,
            },
            PackageStepView::Remove { packages } => ActionView::Remove { packages },
            PackageStepView::Wanted => ActionView::ListExplicit,
            PackageStepView::Installed { .. } => ActionView::ListInstalled,
            PackageStepView::Promote { present, done, .. } => ActionView::MarkExplicit {
                package: present[done as int],
            },
            PackageStepView::Upgrade { packages } => ActionView::Upgrade { packages },
        }
    }

    /// Where the packages go from a step, once it has its reply. One that the
    /// step does not wait for changes nothing.
    pub open spec fn turn(self, plan: PlanView, reply: ReplyView) -> Turn<
        PackageStepView,
        FailureView,
    > {
        let default = plan.settings.default_true_confirmation;
        match (self, reply) {
            (PackageStepView::Orphans, ReplyView::Captured(said)) => {
                let packages = unused(plan, said);
                if packages.len() == 0 {
                    on(PackageStepView::Explicit)
                } else if unquestioned(plan, packages) {
                    on(PackageStepView::RemoveOrphans { packages })
                } else {
                    on(PackageStepView::ConfirmOrphans { packages })
                }
            },
            (PackageStepView::ConfirmOrphans { packages }, ReplyView::Answered(said)) => match said {
                Ok(answer) => if confirms(answer, default) {
                    on(PackageStepView::RemoveOrphans { packages })
                } else {
                    on(PackageStepView::Explicit)
                },
                Err(cause) => broken(cause),
            },
            (PackageStepView::RemoveOrphans { .. }, ReplyView::Exited(said)) => match said {
                Ok(true) => on(PackageStepView::Explicit),
                Ok(false) => Turn::Failed { failure: FailureView::NotRemoved },
                Err(cause) => broken(cause),
            },
            (PackageStepView::Explicit, ReplyView::Captured(said)) => match said {
                Ok(raw) => {
                    let candidates = unspecified(plan, raw);
                    if unquestioned(plan, candidates) {
                        on(start_removal(candidates))
                    } else {
                        on(PackageStepView::ConfirmRemoval { candidates })
                    }
                },
                Err(cause) => broken(cause),
            },
            (PackageStepView::ConfirmRemoval { candidates }, ReplyView::Answered(said)) => {
                match said {
                    Ok(answer) => if confirms(answer, default) {
                        on(start_removal(candidates))
                    } else {
                        on(PackageStepView::Wanted)
                    },
                    Err(cause) => broken(cause),
                }
            },
            (
                PackageStepView::Requirers { candidates, required_by },
                ReplyView::Captured(said),
            ) => match said {
                Ok(raw) => {
                    let all = required_by.push(required_in(lines(raw)));
                    if all.len() < candidates.len() {
                        on(PackageStepView::Requirers { candidates, required_by: all })
                    } else {
                        on(demote_from(staying(candidates, all), 0, leaving(candidates, all)))
                    }
                },
                Err(cause) => broken(cause),
            },
            (
                PackageStepView::Demote { staying, done, leaving },
                ReplyView::Captured(said),
            ) => match said {
                Ok(_) => on(demote_from(staying, done + 1, leaving)),
                Err(cause) => Turn::Failed {
                    failure: FailureView::NotDemoted {
                        package: staying[done as int].package,
                        cause,
                    },
                },
            },
            (PackageStepView::Remove { .. }, ReplyView::Exited(said)) => match said {
                Ok(true) => on(PackageStepView::Wanted),
                Ok(false) => Turn::Failed { failure: FailureView::NotRemoved },
                Err(cause) => broken(cause),
            },
            (PackageStepView::Wanted, ReplyView::Captured(said)) => match said {
                Ok(raw) => on(PackageStepView::Installed { wanted: lacking(plan, raw) }),
                Err(cause) => broken(cause),
            },
            (PackageStepView::Installed { wanted }, ReplyView::Captured(said)) => match said {
                Ok(raw) => on(
                    promote_from(already_there(wanted, raw), 0, without(wanted, listed(raw))),
                ),
                Err(cause) => broken(cause),
            },
            (
                PackageStepView::Promote { present, done, missing },
                ReplyView::Captured(said),
            ) => match said {
                Ok(_) => on(promote_from(present, done + 1, missing)),
                Err(cause) => Turn::Failed {
                    failure: FailureView::NotPromoted { package: present[done as int], cause },
                },
            },
            (PackageStepView::Upgrade { packages }, ReplyView::Exited(said)) => match said {
                Ok(true) => Turn::Over,
                Ok(false) => Turn::Failed {
                    failure: if packages.len() == 0 {
                        FailureView::NotUpgraded
                    } else {
                        FailureView::NotInstalled
                    },
                },
                Err(cause) => broken(cause),
            },
            _ => on(self),
        }
    }
}

/// Parts the wanted packages into those that are installed already, and the
/// others.
pub fn filter_installables(to_install: Vec<String>, installed_raw: &str) -> (parts: (
    Vec<String>,
    Vec<String>,
))
    ensures
        texts(parts.0@) == already_there(texts(to_install@), installed_raw@),
        texts(parts.1@) == without(texts(to_install@), listed(installed_raw@)),
{
    let list = lines_to_vec(installed_raw);
    let installed = name_set(list.as_slice());
    let ghost all = texts(to_install@);
    let ghost there = listed(installed_raw@);
    let mut present: Vec<String> = Vec::new();
    let mut missing: Vec<String> = Vec::new();
    let mut i: usize = 0;
    proof {
        reveal(Seq::filter);
        assert(texts(present@) =~= all.take(0).filter(inside(there)));
        assert(texts(missing@) =~= all.take(0).filter(outside(there)));
    }
    while i < to_install.len()
        invariant
            i <= to_install@.len(),
            all == texts(to_install@),
            forall|name: Text| #[trigger] installed@.contains(name) <==> there.contains(name),
            texts(present@) == all.take(i as int).filter(inside(there)),
            texts(missing@) == all.take(i as int).filter(outside(there)),
        decreases to_install@.len() - i,
    {
        proof {
            lemma_filter_take(all, inside(there), i as int);
            lemma_filter_take(all, outside(there), i as int);
            lemma_texts_push(present@, to_install@[i as int]);
            lemma_texts_push(missing@, to_install@[i as int]);
        }
        if installed.contains(to_install[i].as_str()) {
            present.push(to_install[i].clone());
        } else {
            missing.push(to_install[i].clone());
        }
        i = i + 1;
    }
    proof {
        assert(all.take(i as int) =~= all);
    }
    (present, missing)
}

/// Over, with the message of an outside error.
fn broke(cause: String) -> (turn: Turn<PackageStep, Failure>)
    ensures
        package_turn_view(turn) == broken(cause@),
{
    Turn::Failed { failure: Failure::Outside { cause } }
}

/// The removal of these candidates starts.
fn begin_removal(candidates: Vec<String>) -> (step: PackageStep)
    ensures
        step@ == start_removal(texts(candidates@)),
        step@.well_formed(),
{
    if candidates.len() == 0 {
        PackageStep::Wanted
    } else {
        let required_by: Vec<Vec<String>> = Vec::new();
        assert(nested(required_by@) =~= seq![]);
        PackageStep::Requirers { candidates, required_by }
    }
}

/// The next package is marked as a dependency; after the last, the others go.
fn next_demotion(staying: Vec<Held>, done: usize, leaving: Vec<String>) -> (step: PackageStep)
    ensures
        step@ == demote_from(held_views(staying@), done as nat, texts(leaving@)),
        step@.well_formed(),
{
    if done < staying.len() {
        PackageStep::Demote { staying, done, leaving }
    } else if leaving.len() == 0 {
        PackageStep::Wanted
    } else {
        PackageStep::Remove { packages: leaving }
    }
}

/// The next package is marked as explicit; after the last, the others come.
fn next_promotion(present: Vec<String>, done: usize, missing: Vec<String>) -> (step: PackageStep)
    ensures
        step@ == promote_from(texts(present@), done as nat, texts(missing@)),
        step@.well_formed(),
{
    if done < present.len() {
        PackageStep::Promote { present, done, missing }
    } else {
        PackageStep::Upgrade { packages: missing }
    }
}

impl PackageStep {
    /// What the step waits for.
    pub fn pending(&self, plan: &Plan) -> (action: Action)
        requires
            self@.well_formed(),
        ensures
            action@ == self@.pending(plan@),
    {
        let default = plan.settings.default_true_confirmation;
        match self {
            PackageStep::Orphans => Action::ListOrphans,
            PackageStep::ConfirmOrphans { packages } => Action::Confirm {
                packages: copy_names(packages.as_slice()),
                default,
            },
            PackageStep::RemoveOrphans { packages } => Action::Remove {
                packages: copy_names(packages.as_slice()),
            },
            PackageStep::Explicit => Action::ListExplicit,
            PackageStep::ConfirmRemoval { candidates } => Action::Confirm {
                packages: copy_names(candidates.as_slice()),
                default,
            },
            PackageStep::Requirers { candidates, required_by } => Action::QueryPackage {
                package: candidates[required_by.len()].clone(),
            },
            PackageStep::Demote { staying, done, .. } => Action::MarkDependency {
                package: staying[*done].package.clone(),
                required_by: copy_names(staying[*done].required_by.as_slice()),
            },
            PackageStep::Remove { packages } => Action::Remove {
                packages: copy_names(packages.as_slice()),
            },
            PackageStep::Wanted => Action::ListExplicit,
            PackageStep::Installed { .. } => Action::ListInstalled,
            PackageStep::Promote { present, done, .. } => Action::MarkExplicit {
                package: present[*done].clone(),
            },
            PackageStep::Upgrade { packages } => Action::Upgrade {
                packages: copy_names(packages.as_slice()),
            },
        }
    }

    /// Where the packages go from here, now that the reply is there. One that
    /// the step does not wait for changes nothing.
    pub fn turn(self, plan: &Plan, reply: Reply) -> (turn: Turn<PackageStep, Failure>)
        requires
            self@.well_formed(),
        ensures
            package_turn_view(turn) == self@.turn(plan@, reply@),
            turn matches Turn::On { step } ==> step@.well_formed(),
    {
        let limit: u32 = plan.settings.package_removal_confirmation_count;
        let default = plan.settings.default_true_confirmation;
        match (self, reply) {
            (PackageStep::Orphans, Reply::Captured(said)) => {
                let raw = match said {
                    Ok(raw) => raw,
                    Err(_) => {
                        let empty = String::new();
                        assert(empty@ =~= seq![]);
                        empty
                    },
                };
                let packages = subtract(
                    lines_to_vec(raw.as_str()).as_slice(),
                    plan.ignore.as_slice(),
                );
                if packages.len() == 0 {
                    Turn::On { step: PackageStep::Explicit }
                } else if check_package_warn_limit(packages.as_slice(), limit) {
                    Turn::On { step: PackageStep::RemoveOrphans { packages } }
                } else {
                    Turn::On { step: PackageStep::ConfirmOrphans { packages } }
                }
            },
            (PackageStep::ConfirmOrphans { packages }, Reply::Answered(said)) => match said {
                Ok(answer) => if confirmed(answer.as_str(), default) {
                    Turn::On { step: PackageStep::RemoveOrphans { packages } }
                } else {
                    Turn::On { step: PackageStep::Explicit }
                },
                Err(cause) => broke(cause),
            },
            (PackageStep::RemoveOrphans { .. }, Reply::Exited(said)) => match said {
                Ok(true) => Turn::On { step: PackageStep::Explicit },
                Ok(false) => Turn::Failed { failure: Failure::NotRemoved },
                Err(cause) => broke(cause),
            },
            (PackageStep::Explicit, Reply::Captured(said)) => match said {
                Ok(raw) => {
                    let specified = plan.desired();
                    let candidates = subtract(
                        subtract(
                            lines_to_vec(raw.as_str()).as_slice(),
                            specified.as_slice(),
                        ).as_slice(),
                        plan.ignore.as_slice(),
                    );
                    if check_package_warn_limit(candidates.as_slice(), limit) {
                        Turn::On { step: begin_removal(candidates) }
                    } else {
                        Turn::On { step: PackageStep::ConfirmRemoval { candidates } }
                    }
                },
                Err(cause) => broke(cause),
            },
            (PackageStep::ConfirmRemoval { candidates }, Reply::Answered(said)) => match said {
                Ok(answer) => if confirmed(answer.as_str(), default) {
                    Turn::On { step: begin_removal(candidates) }
                } else {
                    Turn::On { step: PackageStep::Wanted }
                },
                Err(cause) => broke(cause),
            },
            (PackageStep::Requirers { candidates, required_by }, Reply::Captured(said)) => {
                match said {
                    Ok(raw) => {
                        let mut all = required_by;
                        let ghost before = nested(all@);
                        all.push(get_required_by(raw.as_str()));
                        assert(nested(all@) =~= before.push(required_in(lines(raw@))));
                        if all.len() < candidates.len() {
                            Turn::On { step: PackageStep::Requirers { candidates, required_by: all } }
                        } else {
                            let Removable { leaving, staying } = filter_removable(
                                candidates.as_slice(),
                                &all,
                            );
                            Turn::On { step: next_demotion(staying, 0, leaving) }
                        }
                    },
                    Err(cause) => broke(cause),
                }
            },
            (PackageStep::Demote { staying, done, leaving }, Reply::Captured(said)) => {
                match said {
                    Ok(_) => {
                        let count: usize = staying.len();
                        assert(done < count);
                        Turn::On { step: next_demotion(staying, done + 1, leaving) }
                    },
                    Err(cause) => Turn::Failed {
                        failure: Failure::NotDemoted {
                            package: staying[done].package.clone(),
                            cause,
                        },
                    },
                }
            },
            (PackageStep::Remove { .. }, Reply::Exited(said)) => match said {
                Ok(true) => Turn::On { step: PackageStep::Wanted },
                Ok(false) => Turn::Failed { failure: Failure::NotRemoved },
                Err(cause) => broke(cause),
            },
            (PackageStep::Wanted, Reply::Captured(said)) => match said {
                Ok(raw) => {
                    let wanted = subtract(
                        subtract(
                            plan.packages.as_slice(),
                            lines_to_vec(raw.as_str()).as_slice(),
                        ).as_slice(),
                        plan.ignore.as_slice(),
                    );
                    Turn::On { step: PackageStep::Installed { wanted } }
                },
                Err(cause) => broke(cause),
            },
            (PackageStep::Installed { wanted }, Reply::Captured(said)) => match said {
                Ok(raw) => {
                    let (present, missing) = filter_installables(wanted, raw.as_str());
                    Turn::On { step: next_promotion(present, 0, missing) }
                },
                Err(cause) => broke(cause),
            },
            (PackageStep::Promote { present, done, missing }, Reply::Captured(said)) => {
                match said {
                    Ok(_) => {
                        let count: usize = present.len();
                        assert(done < count);
                        Turn::On { step: next_promotion(present, done + 1, missing) }
                    },
                    Err(cause) => Turn::Failed {
                        failure: Failure::NotPromoted { package: present[done].clone(), cause },
                    },
                }
            },
            (PackageStep::Upgrade { packages }, Reply::Exited(said)) => match said {
                Ok(true) => Turn::Over,
                Ok(false) => if packages.len() == 0 {
                    Turn::Failed { failure: Failure::NotUpgraded }
                } else {
                    Turn::Failed { failure: Failure::NotInstalled }
                },
                Err(cause) => broke(cause),
            },
            (step, _) => Turn::On { step },
        }
    }
}

proof fn lemma_filter_twice<A>(
    s: Seq<A>,
    one: spec_fn(A) -> bool,
    two: spec_fn(A) -> bool,
    both: spec_fn(A) -> bool,
)
    requires
        forall|a: A| #[trigger] both(a) <==> one(a) && two(a),
    ensures
        s.filter(one).filter(two) == s.filter(both),
    decreases s.len(),
{
    reveal(Seq::filter);
    if s.len() > 0 {
        let shorter = s.drop_last();
        lemma_filter_twice(shorter, one, two, both);
        assert(both(s.last()) <==> one(s.last()) && two(s.last()));
        if one(s.last()) {
            assert(shorter.filter(one).push(s.last()).drop_last() =~= shorter.filter(one));
        }
    } else {
        assert(s.filter(one).filter(two) =~= s.filter(both));
    }
}

/// The packages that a run picks are those of a list that it is told, in their
/// order: of the orphans, those that are not to be left alone; of what is
/// installed, those that are also not asked for; of what is asked for, those that
/// are not there, and not to be left alone; and of these, those that are there
/// otherwise.
pub proof fn law_packages_are_picked_in_order(plan: PlanView, raw: Text, wanted: Seq<Text>, cause: Text)
    ensures
        unused(plan, Ok(raw)) == listed(raw).filter(|name: Text| !plan.ignore.contains(name)),
        unused(plan, Err(cause)).len() == 0,
        unspecified(plan, raw) == listed(raw).filter(
            |name: Text| !plan.desired().contains(name) && !plan.ignore.contains(name),
        ),
        lacking(plan, raw) == plan.packages.filter(
            |name: Text| !listed(raw).contains(name) && !plan.ignore.contains(name),
        ),
        already_there(wanted, raw) == wanted.filter(|name: Text| listed(raw).contains(name)),
{
    let keep = |name: Text| !plan.ignore.contains(name);
    assert(keep =~= outside(plan.ignore));
    let there = |name: Text| listed(raw).contains(name);
    assert(there =~= inside(listed(raw)));
    lemma_filter_twice(
        listed(raw),
        outside(plan.desired()),
        outside(plan.ignore),
        |name: Text| !plan.desired().contains(name) && !plan.ignore.contains(name),
    );
    lemma_filter_twice(
        plan.packages,
        outside(listed(raw)),
        outside(plan.ignore),
        |name: Text| !listed(raw).contains(name) && !plan.ignore.contains(name),
    );
    assert(on_one_line(seq![]));
    law_a_line_lists_a_name(seq![]);
    law_trim_cuts_blanks(seq![], seq![], seq![]);
    assert(Seq::<char>::empty() + Seq::<char>::empty() + Seq::<char>::empty() =~= seq![]);
    law_subtract_keeps_the_rest(seq![], plan.ignore, seq![]);
}

/// Orphans that are not to be left alone are removed: at once if they are few
/// enough, else if the user agrees. If there are none, or the user does not agree,
/// the run goes on.
pub proof fn law_how_orphans_go(
    plan: PlanView,
    said: Result<Text, Text>,
    packages: Seq<Text>,
    answer: Text,
)
    ensures
        ({
            let found = unused(plan, said);
            let reply = ReplyView::Captured(said);
            let limit = plan.settings.package_removal_confirmation_count;
            let default = plan.settings.default_true_confirmation;
            let ask = PackageStepView::ConfirmOrphans { packages };
            let remove = PackageStepView::RemoveOrphans { packages };
            &&& PackageStepView::Orphans.pending(plan) is ListOrphans
            &&& found.len() == 0 ==> PackageStepView::Orphans.turn(plan, reply) == on(
                PackageStepView::Explicit,
            )
            &&& 0 < found.len() <= limit ==> PackageStepView::Orphans.turn(plan, reply) == on(
                PackageStepView::RemoveOrphans { packages: found },
            )
            &&& limit < found.len() <= u32::MAX ==> PackageStepView::Orphans.turn(plan, reply) == on(
                PackageStepView::ConfirmOrphans { packages: found },
            )
            &&& ask.pending(plan) == (ActionView::Confirm { packages, default })
            &&& confirms(answer, default) ==> ask.turn(plan, ReplyView::Answered(Ok(answer))) == on(
                remove,
            )
            &&& !confirms(answer, default) ==> ask.turn(plan, ReplyView::Answered(Ok(answer)))
                == on(PackageStepView::Explicit)
            &&& remove.pending(plan) == (ActionView::Remove { packages })
            &&& remove.turn(plan, ReplyView::Exited(Ok(true))) == on(PackageStepView::Explicit)
            &&& remove.turn(plan, ReplyView::Exited(Ok(false))) == (Turn::<
                PackageStepView,
                _,
            >::Failed { failure: FailureView::NotRemoved })
        }),
{
}

/// Packages that are no longer specified go the same way, but each is asked about
/// first, so that those that others require are marked and kept.
pub proof fn law_how_unspecified_packages_go(
    plan: PlanView,
    raw: Text,
    candidates: Seq<Text>,
    required_by: Seq<Seq<Text>>,
    held: Seq<HeldView>,
    done: nat,
    going: Seq<Text>,
    answer: Text,
)
    ensures
        ({
            let found = unspecified(plan, raw);
            let said = ReplyView::Captured(Ok(raw));
            let limit = plan.settings.package_removal_confirmation_count;
            let default = plan.settings.default_true_confirmation;
            let ask = PackageStepView::ConfirmRemoval { candidates };
            let query = PackageStepView::Requirers { candidates, required_by };
            let mark = PackageStepView::Demote { staying: held, done, leaving: going };
            let remove = PackageStepView::Remove { packages: going };
            let start = |names: Seq<Text>|
                if names.len() == 0 {
                    on(PackageStepView::Wanted)
                } else {
                    on(PackageStepView::Requirers { candidates: names, required_by: seq![] })
                };
            let finish = |names: Seq<Text>|
                if names.len() == 0 {
                    on(PackageStepView::Wanted)
                } else {
                    on(PackageStepView::Remove { packages: names })
                };
            let more = required_by.push(required_in(lines(raw)));
            &&& PackageStepView::Explicit.pending(plan) is ListExplicit
            &&& found.len() <= limit ==> PackageStepView::Explicit.turn(plan, said) == start(found)
            &&& limit < found.len() <= u32::MAX ==> PackageStepView::Explicit.turn(plan, said) == on(
                PackageStepView::ConfirmRemoval { candidates: found },
            )
            &&& ask.pending(plan) == (ActionView::Confirm { packages: candidates, default })
            &&& confirms(answer, default) ==> ask.turn(plan, ReplyView::Answered(Ok(answer)))
                == start(candidates)
            &&& !confirms(answer, default) ==> ask.turn(plan, ReplyView::Answered(Ok(answer)))
                == on(PackageStepView::Wanted)
            &&& query.pending(plan) == (ActionView::QueryPackage {
                package: candidates[required_by.len() as int],
            })
            &&& more.len() < candidates.len() ==> query.turn(plan, said) == on(
                PackageStepView::Requirers { candidates, required_by: more },
            )
            &&& more.len() >= candidates.len() && staying(candidates, more).len() > 0
                ==> query.turn(plan, said) == on(
                PackageStepView::Demote {
                    staying: staying(candidates, more),
                    done: 0,
                    leaving: leaving(candidates, more),
                },
            )
            &&& more.len() >= candidates.len() && staying(candidates, more).len() == 0
                ==> query.turn(plan, said) == finish(leaving(candidates, more))
            &&& mark.pending(plan) == (ActionView::MarkDependency {
                package: held[done as int].package,
                required_by: held[done as int].required_by,
            })
            &&& done + 1 < held.len() ==> mark.turn(plan, said) == on(
                PackageStepView::Demote { staying: held, done: done + 1, leaving: going },
            )
            &&& done + 1 >= held.len() ==> mark.turn(plan, said) == finish(going)
            &&& remove.pending(plan) == (ActionView::Remove { packages: going })
            &&& remove.turn(plan, ReplyView::Exited(Ok(true))) == on(PackageStepView::Wanted)
            &&& remove.turn(plan, ReplyView::Exited(Ok(false))) == (Turn::<
                PackageStepView,
                _,
            >::Failed { failure: FailureView::NotRemoved })
        }),
{
}

/// What is asked for and not there for its own sake is looked up among all that is
/// installed: what is there is marked, one package after the other, and the rest is
/// installed with the upgrade, which ends this part of the run.
pub proof fn law_how_packages_come(
    plan: PlanView,
    raw: Text,
    wanted: Seq<Text>,
    present: Seq<Text>,
    done: nat,
    missing: Seq<Text>,
)
    ensures
        ({
            let said = ReplyView::Captured(Ok(raw));
            let there = already_there(wanted, raw);
            let others = without(wanted, listed(raw));
            let list = PackageStepView::Installed { wanted };
            let mark = PackageStepView::Promote { present, done, missing };
            let upgrade = PackageStepView::Upgrade { packages: missing };
            &&& PackageStepView::Wanted.pending(plan) is ListExplicit
            &&& PackageStepView::Wanted.turn(plan, said) == on(
                PackageStepView::Installed { wanted: lacking(plan, raw) },
            )
            &&& list.pending(plan) is ListInstalled
            &&& there.len() > 0 ==> list.turn(plan, said) == on(
                PackageStepView::Promote { present: there, done: 0, missing: others },
            )
            &&& there.len() == 0 ==> list.turn(plan, said) == on(
                PackageStepView::Upgrade { packages: others },
            )
            &&& mark.pending(plan) == (ActionView::MarkExplicit { package: present[done as int] })
            &&& done + 1 < present.len() ==> mark.turn(plan, said) == on(
                PackageStepView::Promote { present, done: done + 1, missing },
            )
            &&& done + 1 >= present.len() ==> mark.turn(plan, said) == on(upgrade)
            &&& upgrade.pending(plan) == (ActionView::Upgrade { packages: missing })
            &&& upgrade.turn(plan, ReplyView::Exited(Ok(true))) is Over
            &&& missing.len() == 0 ==> upgrade.turn(plan, ReplyView::Exited(Ok(false))) == (Turn::<
                PackageStepView,
                _,
            >::Failed { failure: FailureView::NotUpgraded })
            &&& missing.len() > 0 ==> upgrade.turn(plan, ReplyView::Exited(Ok(false))) == (Turn::<
                PackageStepView,
                _,
            >::Failed { failure: FailureView::NotInstalled })
        }),
{
}

/// Whatever goes wrong outside ends the run, with its own message; a mark that
/// could not be made ends it with the name of the package as well. Only orphans
/// that cannot be listed do not: then there are none.
pub proof fn law_package_errors_end_the_run(plan: PlanView, step: PackageStepView, cause: Text)
    ensures
        ({
            let over = Turn::<PackageStepView, FailureView>::Failed {
                failure: FailureView::Outside { cause },
            };
            let captured = ReplyView::Captured(Err(cause));
            &&& step is Explicit || step is Requirers || step is Wanted || step is Installed
                ==> step.turn(plan, captured) == over
            &&& step is ConfirmOrphans || step is ConfirmRemoval ==> step.turn(
                plan,
                ReplyView::Answered(Err(cause)),
            ) == over
            &&& step is RemoveOrphans || step is Remove || step is Upgrade ==> step.turn(
                plan,
                ReplyView::Exited(Err(cause)),
            ) == over
            &&& step matches PackageStepView::Demote { staying, done, .. } ==> step.turn(
                plan,
                captured,
            ) == (Turn::<PackageStepView, _>::Failed {
                failure: FailureView::NotDemoted { package: staying[done as int].package, cause },
            })
            &&& step matches PackageStepView::Promote { present, done, .. } ==> step.turn(
                plan,
                captured,
            ) == (Turn::<PackageStepView, _>::Failed {
                failure: FailureView::NotPromoted { package: present[done as int], cause },
            })
            &&& PackageStepView::Orphans.turn(plan, captured) == on(PackageStepView::Explicit)
        }),
{
    law_packages_are_picked_in_order(plan, seq![], seq![], cause);
}

/// The model of a step is the same step, with a text for each string.
pub proof fn law_package_step_model(step: PackageStep)
    ensures
        match step {
            PackageStep::Orphans => step@ is Orphans,
            PackageStep::ConfirmOrphans { packages } => step@ == (PackageStepView::ConfirmOrphans {
                packages: texts(packages@),
            }),
            PackageStep::RemoveOrphans { packages } => step@ == (PackageStepView::RemoveOrphans {
                packages: texts(packages@),
            }),
            PackageStep::Explicit => step@ is Explicit,
            PackageStep::ConfirmRemoval { candidates } => step@ == (
            PackageStepView::ConfirmRemoval { candidates: texts(candidates@) }),
            PackageStep::Requirers { candidates, required_by } => {
                &&& step@ matches PackageStepView::Requirers { candidates: names, required_by: by }
                &&& names == texts(candidates@)
                &&& by.len() == required_by@.len()
                &&& forall|i: int|
                    0 <= i < by.len() ==> #[trigger] by[i] == texts(required_by@[i]@)
            },
            PackageStep::Demote { staying, done, leaving } => {
                &&& step@ matches PackageStepView::Demote { staying: held, done: at, leaving: out }
                &&& at == done
                &&& out == texts(leaving@)
                &&& held.len() == staying@.len()
                &&& forall|i: int|
                    0 <= i < held.len() ==> (#[trigger] held[i]).package == staying@[i].package@
                        && held[i].required_by == texts(staying@[i].required_by@)
            },
            PackageStep::Remove { packages } => step@ == (PackageStepView::Remove {
                packages: texts(packages@),
            }),
            PackageStep::Wanted => step@ is Wanted,
            PackageStep::Installed { wanted } => step@ == (PackageStepView::Installed {
                wanted: texts(wanted@),
            }),
            PackageStep::Promote { present, done, missing } => step@ == (
            PackageStepView::Promote {
                present: texts(present@),
                done: done as nat,
                missing: texts(missing@),
            }),
            PackageStep::Upgrade { packages } => step@ == (PackageStepView::Upgrade {
                packages: texts(packages@),
            }),
        },
{
}

} // verus!
