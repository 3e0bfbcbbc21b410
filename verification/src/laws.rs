//! What holds of every run, whatever it is told.
use crate::action::ActionView;
use crate::builds::{rpc_count, BuildStepView, BuildView};
use crate::cache::{configured_url, CacheStepView};
use crate::config::PlanView;
use crate::failure::FailureView;
use crate::names::{inside, law_subtract, lemma_filter_contains, listed, outside, without};
use crate::packages::{
    already_there, demote_from, finish_removal, lacking, promote_from, start_removal, unquestioned,
    unspecified, unused, PackageStepView,
};
use crate::removal::{
    confirms, law_each_candidate_is_decided, leaving, required_in, staying, HeldView,
};
use crate::reply::{OriginView, ReplyView, Turn, VersionOrder};
use crate::session::{after, build_stage, reached, SessionView, StageView};
use crate::text::{lines, words, Text};
use vstd::prelude::*;

verus! {

/// None of the names is in `taken`.
pub open spec fn apart(names: Seq<Text>, taken: Seq<Text>) -> bool {
    forall|name: Text| #[trigger] names.contains(name) ==> !taken.contains(name)
}

/// All of the names are in `all`.
pub open spec fn part_of(names: Seq<Text>, all: Seq<Text>) -> bool {
    forall|name: Text| #[trigger] names.contains(name) ==> all.contains(name)
}

/// Neither desired nor to be left alone.
pub open spec fn superfluous(plan: PlanView, names: Seq<Text>) -> bool {
    apart(names, plan.desired()) && apart(names, plan.ignore)
}

/// To be installed, and not to be left alone.
pub open spec fn requested(plan: PlanView, names: Seq<Text>) -> bool {
    part_of(names, plan.packages) && apart(names, plan.ignore)
}

/// The packages of a list of held ones.
pub open spec fn held_names(held: Seq<HeldView>) -> Seq<Text> {
    held.map_values(|held: HeldView| held.package)
}

/// What the names that a step carries have in common.
pub open spec fn guarded(plan: PlanView, step: PackageStepView) -> bool {
    match step {
        PackageStepView::ConfirmOrphans { packages } => apart(packages, plan.ignore),
        PackageStepView::RemoveOrphans { packages } => apart(packages, plan.ignore),
        PackageStepView::ConfirmRemoval { candidates } => superfluous(plan, candidates),
        PackageStepView::Requirers { candidates, .. } => superfluous(plan, candidates),
        PackageStepView::Demote { staying, leaving, .. } => {
            &&& superfluous(plan, held_names(staying))
            &&& superfluous(plan, leaving)
        },
        PackageStepView::Remove { packages } => superfluous(plan, packages),
        PackageStepView::Installed { wanted } => requested(plan, wanted),
        PackageStepView::Promote { present, missing, .. } => {
            &&& requested(plan, present)
            &&& requested(plan, missing)
        },
        PackageStepView::Upgrade { packages } => requested(plan, packages),
        _ => true,
    }
}

/// What the names that a run carries have in common.
pub open spec fn sound(session: SessionView) -> bool {
    &&& session.well_formed()
    &&& session.stage matches StageView::Packages { packages } ==> guarded(session.plan, packages)
}

proof fn lemma_without(all: Seq<Text>, taken: Seq<Text>)
    ensures
        part_of(without(all, taken), all),
        apart(without(all, taken), taken),
{
    assert forall|name: Text| #[trigger] without(all, taken).contains(name) implies all.contains(
        name,
    ) && !taken.contains(name) by {
        lemma_filter_contains(all, outside(taken), name);
    }
}

proof fn lemma_guarded(plan: PlanView, step: PackageStepView, reply: ReplyView)
    requires
        step.well_formed(),
        guarded(plan, step),
    ensures
        step.turn(plan, reply) matches Turn::On { step: later } ==> later.well_formed() && guarded(
            plan,
            later,
        ),
{
    match (step, reply) {
        (PackageStepView::Orphans, ReplyView::Captured(said)) => {
            match said {
                Ok(raw) => lemma_without(listed(raw), plan.ignore),
                Err(_) => lemma_without(listed(seq![]), plan.ignore),
            }
        },
        (PackageStepView::Explicit, ReplyView::Captured(Ok(raw))) => {
            lemma_without(listed(raw), plan.desired());
            lemma_without(without(listed(raw), plan.desired()), plan.ignore);
        },
        (PackageStepView::Requirers { candidates, required_by }, ReplyView::Captured(Ok(raw))) => {
            let all = required_by.push(required_in(lines(raw)));
            assert forall|name: Text|
                #![trigger leaving(candidates, all).contains(name)]
                #![trigger held_names(staying(candidates, all)).contains(name)]
                leaving(candidates, all).contains(name) || held_names(
                    staying(candidates, all),
                ).contains(name) implies candidates.contains(name) by {
                law_each_candidate_is_decided(candidates, all, name);
            }
        },
        (PackageStepView::Wanted, ReplyView::Captured(Ok(raw))) => {
            lemma_without(plan.packages, listed(raw));
            lemma_without(without(plan.packages, listed(raw)), plan.ignore);
        },
        (PackageStepView::Installed { wanted }, ReplyView::Captured(Ok(raw))) => {
            lemma_without(wanted, listed(raw));
            assert forall|name: Text| #[trigger]
                already_there(wanted, raw).contains(name) implies wanted.contains(name) by {
                lemma_filter_contains(wanted, inside(listed(raw)), name);
            }
        },
        _ => {},
    }
}

proof fn lemma_build_well_formed(plan: PlanView, build: BuildView, reply: ReplyView)
    requires
        plan.well_formed(),
        build.well_formed(plan),
    ensures
        build.turn(plan, reply) matches Turn::On { step: later } ==> later.well_formed(plan),
{
    let all = plan.pkgbuilds;
    if build.index + 1 < all.len() {
        assert(all.take(build.index as int + 2).drop_last() =~= all.take(build.index as int + 1));
    }
}

proof fn lemma_sound(before: SessionView, reply: ReplyView)
    requires
        sound(before),
    ensures
        sound(before.next(reply)),
        before.next(reply).plan == before.plan,
{
    let all = before.plan.pkgbuilds;
    match before.stage {
        StageView::Packages { packages } => {
            lemma_guarded(before.plan, packages, reply);
        },
        StageView::Cache { .. } => {
            if all.len() > 0 {
                assert(all.take(1).drop_last() =~= all.take(0));
                assert(all.take(1).last() == all[0]);
                assert(rpc_count(all.take(0)) == 0);
            }
        },
        StageView::Builds { build } => {
            lemma_build_well_formed(before.plan, build, reply);
            if build.index + 1 >= all.len() {
                assert(all.take(build.index as int + 1) =~= all);
            }
        },
        _ => {},
    }
}

proof fn lemma_reached(plan: PlanView, replies: Seq<ReplyView>)
    requires
        plan.well_formed(),
    ensures
        sound(reached(plan, replies)),
        reached(plan, replies).plan == plan,
    decreases replies.len(),
{
    if replies.len() > 0 {
        lemma_reached(plan, replies.drop_last());
        lemma_sound(reached(plan, replies.drop_last()), replies.last());
    }
}

/// The packages to leave alone are left alone: none is ever removed or installed
/// as a package, nor marked as a dependency or as explicit.
pub proof fn law_ignored_is_left_alone(plan: PlanView, replies: Seq<ReplyView>)
    requires
        plan.well_formed(),
    ensures
        match reached(plan, replies).pending() {
            ActionView::Remove { packages } => apart(packages, plan.ignore),
            ActionView::Confirm { packages, .. } => apart(packages, plan.ignore),
            ActionView::MarkDependency { package, .. } => !plan.ignore.contains(package),
            ActionView::Upgrade { packages } => apart(packages, plan.ignore),
            ActionView::MarkExplicit { package } => !plan.ignore.contains(package),
            _ => true,
        },
{
    lemma_reached(plan, replies);
    if let StageView::Packages { packages } = reached(plan, replies).stage {
        if let PackageStepView::Demote { staying, done, .. } = packages {
            let names = held_names(staying);
            assert(names[done as int] == staying[done as int].package);
            assert(names.contains(staying[done as int].package));
        }
        if let PackageStepView::Promote { present, done, .. } = packages {
            assert(present.contains(present[done as int]));
        }
    }
}

/// What is desired is not removed for being no longer specified, nor marked as
/// a dependency.
pub proof fn law_desired_is_kept(plan: PlanView, replies: Seq<ReplyView>)
    requires
        plan.well_formed(),
    ensures
        ({
            let session = reached(plan, replies);
            &&& session.stage matches StageView::Packages {
                packages: PackageStepView::Remove { packages },
            } ==> apart(packages, plan.desired())
            &&& session.pending() matches ActionView::MarkDependency { package, .. }
                ==> !plan.desired().contains(package)
        }),
{
    lemma_reached(plan, replies);
    if let StageView::Packages { packages } = reached(plan, replies).stage {
        if let PackageStepView::Demote { staying, done, .. } = packages {
            let names = held_names(staying);
            assert(names[done as int] == staying[done as int].package);
            assert(names.contains(staying[done as int].package));
        }
    }
}

/// Only packages that the configuration names are installed with the upgrade,
/// or marked as explicit.
pub proof fn law_only_asked_for_is_installed(plan: PlanView, replies: Seq<ReplyView>)
    requires
        plan.well_formed(),
    ensures
        match reached(plan, replies).pending() {
            ActionView::Upgrade { packages } => part_of(packages, plan.packages),
            ActionView::MarkExplicit { package } => plan.packages.contains(package),
            _ => true,
        },
{
    lemma_reached(plan, replies);
    if let StageView::Packages { packages } = reached(plan, replies).stage {
        if let PackageStepView::Promote { present, done, .. } = packages {
            assert(present.contains(present[done as int]));
        }
    }
}

/// A removal of more packages than may go without a question starts only with
/// an answer that agrees.
pub proof fn law_large_removals_are_confirmed(
    plan: PlanView,
    step: PackageStepView,
    reply: ReplyView,
    later: PackageStepView,
)
    requires
        step.turn(plan, reply) == (Turn::<_, FailureView>::On { step: later }),
    ensures
        ({
            let agreed = reply matches ReplyView::Answered(Ok(answer)) && confirms(
                answer,
                plan.settings.default_true_confirmation,
            );
            &&& later matches PackageStepView::RemoveOrphans { packages } ==> {
                ||| step is RemoveOrphans
                ||| unquestioned(plan, packages)
                ||| agreed && step == (PackageStepView::ConfirmOrphans { packages })
            }
            &&& later matches PackageStepView::Requirers { candidates, .. } ==> {
                ||| step is Requirers
                ||| unquestioned(plan, candidates)
                ||| agreed && step == (PackageStepView::ConfirmRemoval { candidates })
            }
        }),
{
}

/// The reply with number `k` of a run lets these packages go: it agrees when a
/// list with them was asked about, or it gives rise to a list with them that is
/// small enough to need no question.
pub open spec fn granted(plan: PlanView, replies: Seq<ReplyView>, k: int, names: Seq<Text>) -> bool {
    let session = reached(plan, replies.take(k));
    match (session.pending(), replies[k]) {
        (ActionView::Confirm { packages, .. }, ReplyView::Answered(Ok(answer))) => {
            &&& confirms(answer, plan.settings.default_true_confirmation)
            &&& part_of(names, packages)
        },
        (ActionView::ListOrphans, ReplyView::Captured(said)) => {
            &&& unquestioned(plan, unused(plan, said))
            &&& part_of(names, unused(plan, said))
        },
        (ActionView::ListExplicit, ReplyView::Captured(Ok(raw))) => {
            &&& session.stage == (StageView::Packages { packages: PackageStepView::Explicit })
            &&& unquestioned(plan, unspecified(plan, raw))
            &&& part_of(names, unspecified(plan, raw))
        },
        _ => false,
    }
}

/// Some reply of a run lets these packages go.
pub open spec fn permitted(plan: PlanView, replies: Seq<ReplyView>, names: Seq<Text>) -> bool {
    exists|k: int| 0 <= k < replies.len() && #[trigger] granted(plan, replies, k, names)
}

/// The packages that a step is about to remove or to mark as dependencies, or to
/// choose from.
pub open spec fn doomed(step: PackageStepView) -> Option<Seq<Text>> {
    match step {
        PackageStepView::RemoveOrphans { packages } => Some(packages),
        PackageStepView::Requirers { candidates, .. } => Some(candidates),
        PackageStepView::Demote { staying, leaving, .. } => Some(held_names(staying) + leaving),
        PackageStepView::Remove { packages } => Some(packages),
        _ => None,
    }
}

proof fn lemma_part_is_permitted(
    plan: PlanView,
    replies: Seq<ReplyView>,
    all: Seq<Text>,
    names: Seq<Text>,
)
    requires
        permitted(plan, replies, all),
        part_of(names, all),
    ensures
        permitted(plan, replies, names),
{
    let k = choose|k: int| 0 <= k < replies.len() && #[trigger] granted(plan, replies, k, all);
    assert(granted(plan, replies, k, names));
}

proof fn lemma_parts_of_sum(a: Seq<Text>, b: Seq<Text>, all: Seq<Text>)
    ensures
        part_of(a, a + b),
        part_of(b, a + b),
        part_of(a, all) && part_of(b, all) ==> part_of(a + b, all),
{
    assert forall|name: Text| #[trigger] a.contains(name) implies (a + b).contains(name) by {
        let k = choose|k: int| 0 <= k < a.len() && a[k] == name;
        assert((a + b)[k] == name);
    }
    assert forall|name: Text| #[trigger] b.contains(name) implies (a + b).contains(name) by {
        let k = choose|k: int| 0 <= k < b.len() && b[k] == name;
        assert((a + b)[a.len() + k] == name);
    }
    assert forall|name: Text| #[trigger] (a + b).contains(name) implies a.contains(name)
        || b.contains(name) by {
        let k = choose|k: int| 0 <= k < (a + b).len() && (a + b)[k] == name;
        if k < a.len() {
            assert(a[k] == name);
        } else {
            assert(b[k - a.len()] == name);
        }
    }
}

proof fn lemma_still_permitted(
    plan: PlanView,
    replies: Seq<ReplyView>,
    all: Seq<Text>,
    names: Seq<Text>,
)
    requires
        replies.len() > 0,
        permitted(plan, replies.drop_last(), all),
        part_of(names, all),
    ensures
        permitted(plan, replies, names),
{
    let earlier = replies.drop_last();
    let k = choose|k: int| 0 <= k < earlier.len() && #[trigger] granted(plan, earlier, k, all);
    assert(earlier.take(k) =~= replies.take(k));
    assert(granted(plan, replies, k, names));
}

proof fn lemma_doomed_are_permitted(plan: PlanView, replies: Seq<ReplyView>)
    ensures
        reached(plan, replies).plan == plan,
        reached(plan, replies).stage matches StageView::Packages { packages } ==> {
            &&& packages.well_formed()
            &&& doomed(packages) matches Some(names) ==> permitted(plan, replies, names)
        },
    decreases replies.len(),
{
    if replies.len() > 0 {
        let earlier = replies.drop_last();
        let last = replies.len() - 1;
        let before = reached(plan, earlier);
        lemma_doomed_are_permitted(plan, earlier);
        assert(replies.take(last) =~= earlier);
        if let StageView::Packages { packages: later } = reached(plan, replies).stage {
            let step = before.stage->packages;
            if let Some(names) = doomed(later) {
                match doomed(step) {
                    Some(all) => {
                        if let PackageStepView::Requirers { candidates, required_by } = step {
                            if let ReplyView::Captured(Ok(raw)) = replies.last() {
                                let found = required_by.push(required_in(lines(raw)));
                                let out = leaving(candidates, found);
                                let kept = held_names(staying(candidates, found));
                                assert forall|name: Text|
                                    #![trigger out.contains(name)]
                                    #![trigger kept.contains(name)]
                                    out.contains(name) || kept.contains(
                                        name,
                                    ) implies candidates.contains(name) by {
                                    law_each_candidate_is_decided(candidates, found, name);
                                }
                                lemma_parts_of_sum(kept, out, candidates);
                            }
                        }
                        if let PackageStepView::Demote { staying, leaving, .. } = step {
                            lemma_parts_of_sum(held_names(staying), leaving, all);
                        }
                        lemma_still_permitted(plan, replies, all, names);
                    },
                    None => {
                        assert(granted(plan, replies, last, names));
                    },
                }
            }
        }
    }
}

/// Packages are removed, or marked as dependencies, only if the user has agreed to
/// a list with them, or if a list with them was small enough to need no question.
pub proof fn law_removals_are_permitted(plan: PlanView, replies: Seq<ReplyView>)
    ensures
        reached(plan, replies).pending() matches ActionView::Remove { packages } ==> permitted(
            plan,
            replies,
            packages,
        ),
        reached(plan, replies).pending() matches ActionView::MarkDependency { package, .. }
            ==> permitted(plan, replies, seq![package]),
{
    lemma_doomed_are_permitted(plan, replies);
    if let StageView::Packages { packages } = reached(plan, replies).stage {
        if let PackageStepView::Demote { staying, done, leaving } = packages {
            let kept = held_names(staying);
            let package = staying[done as int].package;
            lemma_parts_of_sum(kept, leaving, kept);
            assert(kept[done as int] == package);
            assert(kept.contains(package));
            assert(part_of(seq![package], kept + leaving));
            lemma_part_is_permitted(plan, replies, kept + leaving, seq![package]);
        }
    }
}

/// An answer that does not agree removes nothing.
pub proof fn law_refusal_removes_nothing(plan: PlanView, names: Seq<Text>, answer: Text)
    requires
        !confirms(answer, plan.settings.default_true_confirmation),
    ensures
        ({
            let reply = ReplyView::Answered(Ok(answer));
            &&& (PackageStepView::ConfirmOrphans { packages: names }).turn(plan, reply) == (Turn::<
                _,
                FailureView,
            >::On { step: PackageStepView::Explicit })
            &&& (PackageStepView::ConfirmRemoval { candidates: names }).turn(plan, reply)
                == (Turn::<_, FailureView>::On { step: PackageStepView::Wanted })
        }),
{
}

/// The packages that are held to be no longer specified are those that are
/// installed for their own sake, not desired and not to be left alone.
pub proof fn law_what_is_no_longer_specified(plan: PlanView, raw: Text, name: Text)
    ensures
        unspecified(plan, raw).contains(name) <==> listed(raw).contains(name)
            && !plan.desired().contains(name) && !plan.ignore.contains(name),
{
    law_subtract(listed(raw), plan.desired(), name);
    law_subtract(without(listed(raw), plan.desired()), plan.ignore, name);
}

/// Each package that the configuration names, and that is not to be left alone,
/// is seen to: it is installed for its own sake as `explicit` says, or is
/// installed as `installed` says and gets marked, or gets installed. Only one of
/// these holds.
pub proof fn law_every_package_is_provided(
    plan: PlanView,
    explicit: Text,
    installed: Text,
    name: Text,
)
    requires
        plan.packages.contains(name),
        !plan.ignore.contains(name),
    ensures
        ({
            let wanted = lacking(plan, explicit);
            let marked = already_there(wanted, installed);
            let fetched = without(wanted, listed(installed));
            &&& PackageStepView::Wanted.turn(plan, ReplyView::Captured(Ok(explicit))) == (Turn::<
                _,
                FailureView,
            >::On { step: PackageStepView::Installed { wanted } })
            &&& (PackageStepView::Installed { wanted }).turn(
                plan,
                ReplyView::Captured(Ok(installed)),
            ) == (Turn::<_, FailureView>::On { step: promote_from(marked, 0, fetched) })
            &&& listed(explicit).contains(name) <==> !marked.contains(name) && !fetched.contains(
                name,
            )
            &&& !(marked.contains(name) && fetched.contains(name))
        }),
{
    let wanted = lacking(plan, explicit);
    law_subtract(plan.packages, listed(explicit), name);
    law_subtract(without(plan.packages, listed(explicit)), plan.ignore, name);
    law_subtract(wanted, listed(installed), name);
    lemma_filter_contains(wanted, inside(listed(installed)), name);
}

proof fn lemma_no_names_left(all: Seq<Text>, taken: Seq<Text>)
    requires
        part_of(all, taken),
    ensures
        without(all, taken).len() == 0,
{
    if without(all, taken).len() > 0 {
        let name = without(all, taken)[0];
        assert(without(all, taken).contains(name));
        lemma_filter_contains(all, outside(taken), name);
    }
}

/// A system that is as it should be is not changed: where all that is installed
/// for its own sake is desired or to be left alone, nothing is removed; where
/// all that is asked for is there or to be left alone, nothing is installed.
pub proof fn law_settled_system_is_kept(plan: PlanView, raw: Text)
    ensures
        (forall|name: Text| #[trigger]
            listed(raw).contains(name) ==> plan.desired().contains(name) || plan.ignore.contains(
                name,
            )) ==> PackageStepView::Explicit.turn(plan, ReplyView::Captured(Ok(raw))) == (Turn::<
            _,
            FailureView,
        >::On { step: PackageStepView::Wanted }),
        (forall|name: Text| #[trigger]
            plan.packages.contains(name) ==> listed(raw).contains(name) || plan.ignore.contains(
                name,
            )) ==> lacking(plan, raw).len() == 0,
{
    if forall|name: Text| #[trigger]
        listed(raw).contains(name) ==> plan.desired().contains(name) || plan.ignore.contains(name) {
        let rest = without(listed(raw), plan.desired());
        assert forall|name: Text| #[trigger] rest.contains(name) implies plan.ignore.contains(
            name,
        ) by {
            lemma_filter_contains(listed(raw), outside(plan.desired()), name);
        }
        lemma_no_names_left(rest, plan.ignore);
    }
    if forall|name: Text| #[trigger]
        plan.packages.contains(name) ==> listed(raw).contains(name) || plan.ignore.contains(name) {
        let rest = without(plan.packages, listed(raw));
        assert forall|name: Text| #[trigger] rest.contains(name) implies plan.ignore.contains(
            name,
        ) by {
            lemma_filter_contains(plan.packages, outside(listed(raw)), name);
        }
        lemma_no_names_left(rest, plan.ignore);
    }
}

/// A run that is done has checked every base, each in its way.
pub proof fn law_every_base_is_checked(plan: PlanView, replies: Seq<ReplyView>)
    requires
        plan.well_formed(),
    ensures
        reached(plan, replies).pending() matches ActionView::Complete { rpc_checked, git_checked }
            ==> rpc_checked == rpc_count(plan.pkgbuilds) && rpc_checked + git_checked
            == plan.pkgbuilds.len(),
{
    lemma_reached(plan, replies);
}

/// As many files are installed for a base as it has artifacts.
pub proof fn law_one_file_for_each_artifact(plan: PlanView, replies: Seq<ReplyView>)
    requires
        plan.well_formed(),
    ensures
        ({
            let session = reached(plan, replies);
            session.stage matches StageView::Builds { build } ==> (
            build.step matches BuildStepView::Install { files } ==> files.len() == build.base(
                plan,
            ).artifacts.len())
        }),
{
    lemma_reached(plan, replies);
}

/// An end is an end.
pub proof fn law_an_end_is_final(session: SessionView, reply: ReplyView)
    requires
        session.stage is Done || session.stage is Failed,
    ensures
        session.next(reply) == session,
{
}

/// A base is on its way to be built.
pub open spec fn to_be_built(build: BuildView) -> bool {
    build.step is Refresh || build.step is Make
}

/// A base is built only if its repository is new, if an artifact of it is not
/// installed, or if an installed one is older.
pub proof fn law_reasons_to_build(
    plan: PlanView,
    build: BuildView,
    reply: ReplyView,
    later: BuildView,
)
    requires
        build.turn(plan, reply) == (Turn::<_, FailureView>::On { step: later }),
        to_be_built(later),
        !to_be_built(build),
    ensures
        match build.step {
            BuildStepView::Clone => reply matches ReplyView::Finished(said) && said is Ok,
            BuildStepView::Version { .. } => reply matches ReplyView::Captured(said)
                && said is Err,
            BuildStepView::Compare { .. } => reply == ReplyView::Compared(VersionOrder::Older),
            _ => false,
        },
{
}

/// In each of these cases it is: a new repository, an artifact that is not
/// installed, and one that is older.
pub proof fn law_builds_that_are_due(plan: PlanView, build: BuildView, reply: ReplyView)
    requires
        match build.step {
            BuildStepView::Clone => reply matches ReplyView::Finished(said) && said is Ok,
            BuildStepView::Version { .. } => reply matches ReplyView::Captured(said)
                && said is Err,
            BuildStepView::Compare { .. } => reply == ReplyView::Compared(VersionOrder::Older),
            _ => false,
        },
    ensures
        build.turn(plan, reply) matches Turn::On { step } && to_be_built(step),
{
}

/// An entry of the cache that belongs to a base is kept exactly if it comes
/// from where the base comes from; one that belongs to none is removed.
pub proof fn law_cache_holds_what_is_configured(plan: PlanView, name: Text, origin: OriginView)
    ensures
        ({
            let first = CacheStepView::Next.turn(plan, ReplyView::Entry(Ok(Some(name))));
            match configured_url(plan.pkgbuilds, name) {
                None => first matches Turn::On { step } && step is Remove,
                Some(url) => {
                    &&& first matches Turn::On { step } && step == (CacheStepView::Inspect { url })
                    &&& (CacheStepView::Inspect { url }).turn(plan, ReplyView::Origin(origin)) == (
                    Turn::<_, FailureView>::On { step: CacheStepView::Next })
                        <==> origin == (OriginView::Url { url })
                },
            }
        }),
{
}

/// The kind of reply that an action is answered with.
pub open spec fn answers(action: ActionView, reply: ReplyView) -> bool {
    match action {
        ActionView::Confirm { .. } => reply is Answered,
        ActionView::OpenCache => reply is Finished,
        ActionView::NextEntry => reply is Entry,
        ActionView::InspectOrigin => reply is Origin,
        ActionView::RemoveEntry { .. } => reply is Finished,
        ActionView::Locate { .. } => reply is Located,
        ActionView::CloneRepository { .. } => reply is Finished,
        ActionView::QueryRpc { .. } => reply is Rpc,
        ActionView::UpdateRepository { .. } => reply is Finished,
        ActionView::CompareVersions { .. } => reply is Compared,
        ActionView::Complete { .. } => false,
        ActionView::Fail { .. } => false,
        _ => match action.command(seq![]) {
            Some(command) => if command.capture {
                reply is Captured
            } else {
                reply is Exited
            },
            None => false,
        },
    }
}

/// A reply to something else than what a run waits for changes nothing.
pub proof fn law_other_replies_change_nothing(session: SessionView, reply: ReplyView)
    requires
        !answers(session.pending(), reply),
    ensures
        session.next(reply) == session,
{
}

/// How much of a run is still ahead, most significant part first.
pub open spec fn ahead(session: SessionView) -> (nat, nat, nat) {
    let bases = session.plan.pkgbuilds.len();
    match session.stage {
        StageView::Packages { packages } => match packages {
            PackageStepView::Orphans => (bases + 2, 12, 0),
            PackageStepView::ConfirmOrphans { .. } => (bases + 2, 11, 0),
            PackageStepView::RemoveOrphans { .. } => (bases + 2, 10, 0),
            PackageStepView::Explicit => (bases + 2, 9, 0),
            PackageStepView::ConfirmRemoval { .. } => (bases + 2, 8, 0),
            PackageStepView::Requirers { candidates, required_by } => (
                bases + 2,
                7,
                (candidates.len() - required_by.len()) as nat,
            ),
            PackageStepView::Demote { staying, done, .. } => (
                bases + 2,
                6,
                (staying.len() - done) as nat,
            ),
            PackageStepView::Remove { .. } => (bases + 2, 5, 0),
            PackageStepView::Wanted => (bases + 2, 4, 0),
            PackageStepView::Installed { .. } => (bases + 2, 3, 0),
            PackageStepView::Promote { present, done, .. } => (
                bases + 2,
                2,
                (present.len() - done) as nat,
            ),
            PackageStepView::Upgrade { .. } => (bases + 2, 1, 0),
        },
        StageView::Cache { cache } => match cache {
            CacheStepView::Open => (bases + 1, 3, 0),
            CacheStepView::Inspect { .. } => (bases + 1, 2, 0),
            CacheStepView::Remove { .. } => (bases + 1, 1, 0),
            CacheStepView::Next => (bases + 1, 0, 0),
        },
        StageView::Builds { build } => {
            let left = (bases - build.index) as nat;
            let artifacts = build.base(session.plan).artifacts.len();
            match build.step {
                BuildStepView::Locate => (left, 11, 0),
                BuildStepView::Clone => (left, 10, 0),
                BuildStepView::Rpc => (left, 10, 0),
                BuildStepView::Update => (left, 10, 0),
                BuildStepView::Prepare => (left, 9, 0),
                BuildStepView::Srcinfo => (left, 8, 0),
                BuildStepView::Version { artifact, .. } => (
                    left,
                    7,
                    (2 * (artifacts - artifact)) as nat,
                ),
                BuildStepView::Compare { artifact, .. } => (
                    left,
                    7,
                    (2 * (artifacts - artifact) - 1) as nat,
                ),
                BuildStepView::Refresh { .. } => (left, 6, 0),
                BuildStepView::Make { .. } => (left, 5, 0),
                BuildStepView::ListBuilt => (left, 4, 0),
                BuildStepView::Inspect { files, seen, .. } => (left, 3, (files.len() - seen) as nat),
                BuildStepView::Install { .. } => (left, 2, 0),
            }
        },
        StageView::Done { .. } => (0, 0, 0),
        StageView::Failed { .. } => (0, 0, 0),
    }
}

/// `a` comes before `b` in lexicographic order.
pub open spec fn precedes(a: (nat, nat, nat), b: (nat, nat, nat)) -> bool {
    ||| a.0 < b.0
    ||| a.0 == b.0 && a.1 < b.1
    ||| a.0 == b.0 && a.1 == b.1 && a.2 < b.2
}

proof fn lemma_packages_move_on(plan: PlanView, packages: PackageStepView, reply: ReplyView)
    requires
        packages.well_formed(),
        answers(packages.pending(plan), reply),
    ensures
        ({
            let session = SessionView { plan, stage: StageView::Packages { packages } };
            precedes(ahead(session.next(reply)), ahead(session))
        }),
{
}

proof fn lemma_builds_move_on(plan: PlanView, build: BuildView, reply: ReplyView)
    requires
        plan.well_formed(),
        build.well_formed(plan),
        answers(build.pending(plan), reply),
    ensures
        ({
            let session = SessionView { plan, stage: StageView::Builds { build } };
            precedes(ahead(session.next(reply)), ahead(session))
        }),
{
}

/// Every reply that a run waits for brings it nearer to its end, but for one
/// that names another entry of the cache.
pub proof fn law_a_run_moves_on(plan: PlanView, replies: Seq<ReplyView>, reply: ReplyView)
    requires
        plan.well_formed(),
        answers(reached(plan, replies).pending(), reply),
        !(reply matches ReplyView::Entry(Ok(Some(_)))),
    ensures
        precedes(
            ahead(reached(plan, replies).next(reply)),
            ahead(reached(plan, replies)),
        ),
{
    lemma_reached(plan, replies);
    match reached(plan, replies).stage {
        StageView::Packages { packages } => lemma_packages_move_on(plan, packages, reply),
        StageView::Cache { .. } => {},
        StageView::Builds { build } => lemma_builds_move_on(plan, build, reply),
        StageView::Done { .. } => {},
        StageView::Failed { .. } => {},
    }
}

/// What changes packages runs pacman through the command that elevates, and a
/// build is told to elevate with it.
pub proof fn law_changes_are_elevated(action: ActionView, elevation: Text)
    ensures
        ({
            let command = action.command(elevation);
            &&& action is Remove || action is Upgrade || action is MarkDependency
                || action is MarkExplicit || action is InstallFiles ==> {
                &&& command is Some
                &&& command->0.program == elevation
                &&& command->0.args.len() > 0
                &&& command->0.args[0] == "pacman"@
            }
            &&& action is Build ==> command is Some && command->0.auth == Some(elevation)
        }),
{
}

/// Commands that all succeed, with these outputs.
pub open spec fn outputs(texts: Seq<Text>) -> Seq<ReplyView> {
    texts.map_values(|text: Text| ReplyView::Captured(Ok(text)))
}

proof fn lemma_outputs(session: SessionView, texts: Seq<Text>, k: int)
    requires
        0 < k <= texts.len(),
    ensures
        after(session, outputs(texts.take(k))) == after(
            session,
            outputs(texts.take(k - 1)),
        ).next(ReplyView::Captured(Ok(texts[k - 1]))),
{
    assert(outputs(texts.take(k)).drop_last() =~= outputs(texts.take(k - 1)));
}

/// A run that is at a step of the packages.
pub open spec fn at_packages(plan: PlanView, packages: PackageStepView) -> SessionView {
    SessionView { plan, stage: StageView::Packages { packages } }
}

proof fn lemma_requirers_asked(plan: PlanView, candidates: Seq<Text>, raws: Seq<Text>, k: int)
    requires
        0 <= k < candidates.len(),
        raws.len() == candidates.len(),
    ensures
        after(at_packages(plan, start_removal(candidates)), outputs(raws.take(k))) == at_packages(
            plan,
            PackageStepView::Requirers {
                candidates,
                required_by: raws.take(k).map_values(|raw: Text| required_in(lines(raw))),
            },
        ),
    decreases k,
{
    let found = |raw: Text| required_in(lines(raw));
    if k > 0 {
        lemma_requirers_asked(plan, candidates, raws, k - 1);
        lemma_outputs(at_packages(plan, start_removal(candidates)), raws, k);
        assert(raws.take(k).map_values(found) =~= raws.take(k - 1).map_values(found).push(
            found(raws[k - 1]),
        ));
    } else {
        assert(outputs(raws.take(0)) =~= seq![]);
        assert(raws.take(0).map_values(found) =~= seq![]);
    }
}

/// The candidates for removal are asked about one after the other; what is
/// said of them decides which leave and which are held back.
pub proof fn law_requirers_decide(plan: PlanView, candidates: Seq<Text>, raws: Seq<Text>)
    requires
        candidates.len() > 0,
        raws.len() == candidates.len(),
    ensures
        ({
            let session = at_packages(plan, start_removal(candidates));
            let required_by = raws.map_values(|raw: Text| required_in(lines(raw)));
            &&& forall|k: int|
                0 <= k < candidates.len() ==> (#[trigger] after(
                    session,
                    outputs(raws.take(k)),
                )).pending() == (ActionView::QueryPackage { package: candidates[k] })
            &&& after(session, outputs(raws)) == at_packages(
                plan,
                demote_from(staying(candidates, required_by), 0, leaving(candidates, required_by)),
            )
        }),
{
    let session = at_packages(plan, start_removal(candidates));
    let found = |raw: Text| required_in(lines(raw));
    assert forall|k: int| 0 <= k < candidates.len() implies (#[trigger] after(
        session,
        outputs(raws.take(k)),
    )).pending() == (ActionView::QueryPackage { package: candidates[k] }) by {
        lemma_requirers_asked(plan, candidates, raws, k);
    }
    let n = candidates.len() as int;
    lemma_requirers_asked(plan, candidates, raws, n - 1);
    lemma_outputs(session, raws, n);
    assert(raws.take(n) =~= raws);
    assert(raws.map_values(found) =~= raws.take(n - 1).map_values(found).push(found(raws[n - 1])));
}

proof fn lemma_demoted(
    plan: PlanView,
    held: Seq<HeldView>,
    going: Seq<Text>,
    outs: Seq<Text>,
    k: nat,
)
    requires
        k <= held.len(),
        outs.len() == held.len(),
    ensures
        after(at_packages(plan, demote_from(held, 0, going)), outputs(outs.take(k as int)))
            == at_packages(plan, demote_from(held, k, going)),
    decreases k,
{
    if k > 0 {
        lemma_demoted(plan, held, going, outs, (k - 1) as nat);
        lemma_outputs(at_packages(plan, demote_from(held, 0, going)), outs, k as int);
    } else {
        assert(outputs(outs.take(0)) =~= seq![]);
    }
}

/// Each package that is held back is marked as a dependency, in turn; after that
/// the others are removed.
pub proof fn law_held_packages_are_marked(
    plan: PlanView,
    held: Seq<HeldView>,
    going: Seq<Text>,
    outs: Seq<Text>,
)
    requires
        outs.len() == held.len(),
    ensures
        ({
            let session = at_packages(plan, demote_from(held, 0, going));
            &&& forall|k: int|
                0 <= k < held.len() ==> (#[trigger] after(
                    session,
                    outputs(outs.take(k)),
                )).pending() == (ActionView::MarkDependency {
                    package: held[k].package,
                    required_by: held[k].required_by,
                })
            &&& after(session, outputs(outs)) == at_packages(plan, finish_removal(going))
        }),
{
    let session = at_packages(plan, demote_from(held, 0, going));
    assert forall|k: int| 0 <= k < held.len() implies (#[trigger] after(
        session,
        outputs(outs.take(k)),
    )).pending() == (ActionView::MarkDependency {
        package: held[k].package,
        required_by: held[k].required_by,
    }) by {
        lemma_demoted(plan, held, going, outs, k as nat);
    }
    lemma_demoted(plan, held, going, outs, held.len());
    assert(outs.take(held.len() as int) =~= outs);
}

proof fn lemma_promoted(
    plan: PlanView,
    present: Seq<Text>,
    missing: Seq<Text>,
    outs: Seq<Text>,
    k: nat,
)
    requires
        k <= present.len(),
        outs.len() == present.len(),
    ensures
        after(at_packages(plan, promote_from(present, 0, missing)), outputs(outs.take(k as int)))
            == at_packages(plan, promote_from(present, k, missing)),
    decreases k,
{
    if k > 0 {
        lemma_promoted(plan, present, missing, outs, (k - 1) as nat);
        lemma_outputs(at_packages(plan, promote_from(present, 0, missing)), outs, k as int);
    } else {
        assert(outputs(outs.take(0)) =~= seq![]);
    }
}

/// Each package that is installed already is marked as explicit, in turn; after
/// that the others are installed.
pub proof fn law_present_packages_are_marked(
    plan: PlanView,
    present: Seq<Text>,
    missing: Seq<Text>,
    outs: Seq<Text>,
)
    requires
        outs.len() == present.len(),
    ensures
        ({
            let session = at_packages(plan, promote_from(present, 0, missing));
            &&& forall|k: int|
                0 <= k < present.len() ==> (#[trigger] after(
                    session,
                    outputs(outs.take(k)),
                )).pending() == (ActionView::MarkExplicit { package: present[k] })
            &&& after(session, outputs(outs)).pending() == (ActionView::Upgrade {
                packages: missing,
            })
        }),
{
    let session = at_packages(plan, promote_from(present, 0, missing));
    assert forall|k: int| 0 <= k < present.len() implies (#[trigger] after(
        session,
        outputs(outs.take(k)),
    )).pending() == (ActionView::MarkExplicit { package: present[k] }) by {
        lemma_promoted(plan, present, missing, outs, k as nat);
    }
    lemma_promoted(plan, present, missing, outs, present.len());
    assert(outs.take(present.len() as int) =~= outs);
}

/// The files that hold an artifact, by what is said of each.
pub open spec fn artifact_files(
    files: Seq<Text>,
    details: Seq<Text>,
    artifacts: Seq<Text>,
) -> Seq<Text>
    decreases files.len(),
{
    if files.len() == 0 {
        seq![]
    } else {
        let earlier = artifact_files(files.drop_last(), details, artifacts);
        if artifacts.contains(words(details[files.len() - 1])[0]) {
            earlier.push(files.last())
        } else {
            earlier
        }
    }
}

/// A run that is at a base.
pub open spec fn at_build(plan: PlanView, build: BuildView) -> SessionView {
    SessionView { plan, stage: StageView::Builds { build } }
}

proof fn lemma_files_chosen(
    plan: PlanView,
    build: BuildView,
    files: Seq<Text>,
    details: Seq<Text>,
    k: int,
)
    requires
        build.step == (BuildStepView::Inspect { files, seen: 0, chosen: seq![] }),
        0 <= k < files.len(),
        details.len() == files.len(),
        forall|i: int| 0 <= i < details.len() ==> words(#[trigger] details[i]).len() > 0,
    ensures
        after(at_build(plan, build), outputs(details.take(k))) == at_build(
            plan,
            BuildView {
                step: BuildStepView::Inspect {
                    files,
                    seen: k as nat,
                    chosen: artifact_files(files.take(k), details, build.base(plan).artifacts),
                },
                ..build
            },
        ),
    decreases k,
{
    if k > 0 {
        lemma_files_chosen(plan, build, files, details, k - 1);
        lemma_outputs(at_build(plan, build), details, k);
        assert(files.take(k).drop_last() =~= files.take(k - 1));
        assert(words(details[k - 1]).len() > 0);
    } else {
        assert(outputs(details.take(0)) =~= seq![]);
        assert(artifact_files(files.take(0), details, build.base(plan).artifacts) =~= seq![]);
    }
}

/// Of the files of a base, those that hold its artifacts are installed, if they
/// are as many; else the run fails.
pub proof fn law_artifact_files_are_installed(
    plan: PlanView,
    build: BuildView,
    files: Seq<Text>,
    details: Seq<Text>,
)
    requires
        build.step == (BuildStepView::Inspect { files, seen: 0, chosen: seq![] }),
        files.len() > 0,
        details.len() == files.len(),
        forall|i: int| 0 <= i < details.len() ==> words(#[trigger] details[i]).len() > 0,
    ensures
        ({
            let artifacts = build.base(plan).artifacts;
            let chosen = artifact_files(files, details, artifacts);
            after(at_build(plan, build), outputs(details)).pending() == if chosen.len()
                == artifacts.len() {
                ActionView::InstallFiles { base: build.base(plan).base, files: chosen }
            } else {
                ActionView::Fail {
                    failure: FailureView::ArtifactsMissing { path: build.path },
                }
            }
        }),
{
    let n = files.len() as int;
    lemma_files_chosen(plan, build, files, details, n - 1);
    lemma_outputs(at_build(plan, build), details, n);
    assert(details.take(n) =~= details);
    assert(files.take(n) =~= files);
    assert(files.drop_last() =~= files.take(n - 1));
    assert(words(details[n - 1]).len() > 0);
}

/// What is said of each artifact, and how its version compares.
pub open spec fn checks(texts: Seq<Text>, orders: Seq<VersionOrder>) -> Seq<ReplyView>
    decreases texts.len(),
{
    if texts.len() == 0 {
        seq![]
    } else {
        checks(texts.drop_last(), orders).push(ReplyView::Captured(Ok(texts.last()))).push(
            ReplyView::Compared(orders[texts.len() - 1]),
        )
    }
}

proof fn lemma_checked(
    plan: PlanView,
    build: BuildView,
    version: Text,
    texts: Seq<Text>,
    orders: Seq<VersionOrder>,
    k: nat,
)
    requires
        build.step == (BuildStepView::Version { version, artifact: 0 }),
        k <= texts.len() <= build.base(plan).artifacts.len(),
        k <= orders.len(),
        build.base(plan).artifacts.len() > 0,
        forall|i: int| 0 <= i < k ==> words(#[trigger] texts[i]).len() >= 2,
        forall|i: int| 0 <= i < k ==> !((#[trigger] orders[i]) is Older),
    ensures
        after(at_build(plan, build), checks(texts.take(k as int), orders)) == (SessionView {
            plan,
            stage: build_stage(build, build.check_from(plan, version, k)),
        }),
    decreases k,
{
    let session = at_build(plan, build);
    if k > 0 {
        let before = texts.take(k - 1);
        let all = checks(texts.take(k as int), orders);
        lemma_checked(plan, build, version, texts, orders, (k - 1) as nat);
        assert(texts.take(k as int).drop_last() =~= before);
        assert(all.drop_last().drop_last() =~= checks(before, orders));
        assert(words(texts[k - 1]).len() >= 2);
        assert(!(orders[k - 1] is Older));
        let asked = after(session, checks(before, orders));
        assert(asked == at_build(
            plan,
            BuildView {
                step: BuildStepView::Version { version, artifact: (k - 1) as nat },
                ..build
            },
        ));
        assert(after(session, all.drop_last()) == asked.next(
            ReplyView::Captured(Ok(texts[k - 1])),
        ));
        assert(after(session, all) == after(session, all.drop_last()).next(
            ReplyView::Compared(orders[k - 1]),
        ));
    } else {
        assert(checks(texts.take(0), orders) =~= seq![]);
    }
}

/// A base whose artifacts are all installed, and none of them older, is not
/// built: the run goes on to the next one.
pub proof fn law_current_base_is_not_built(
    plan: PlanView,
    build: BuildView,
    version: Text,
    texts: Seq<Text>,
    orders: Seq<VersionOrder>,
)
    requires
        build.step == (BuildStepView::Version { version, artifact: 0 }),
        texts.len() == orders.len(),
        texts.len() == build.base(plan).artifacts.len(),
        texts.len() > 0,
        forall|i: int| 0 <= i < texts.len() ==> words(#[trigger] texts[i]).len() >= 2,
        forall|i: int| 0 <= i < orders.len() ==> !((#[trigger] orders[i]) is Older),
    ensures
        after(at_build(plan, build), checks(texts, orders)) == (SessionView {
            plan,
            stage: build_stage(build, build.finish(plan)),
        }),
{
    lemma_checked(plan, build, version, texts, orders, texts.len());
    assert(texts.take(texts.len() as int) =~= texts);
}

/// As long as the artifacts of a base are installed and none of them is older, each
/// is asked about in turn, none left out, and its installed version is held against
/// the version of the base. One that is not installed, or is older, has the base
/// built, however many came before it.
pub proof fn law_every_artifact_is_checked(
    plan: PlanView,
    build: BuildView,
    version: Text,
    texts: Seq<Text>,
    orders: Seq<VersionOrder>,
    text: Text,
    cause: Text,
)
    requires
        build.step == (BuildStepView::Version { version, artifact: 0 }),
        texts.len() == orders.len(),
        texts.len() < build.base(plan).artifacts.len(),
        forall|i: int| 0 <= i < texts.len() ==> words(#[trigger] texts[i]).len() >= 2,
        forall|i: int| 0 <= i < orders.len() ==> !((#[trigger] orders[i]) is Older),
        words(text).len() >= 2,
    ensures
        ({
            let artifact = plan.pkgbuilds[build.index as int].artifacts[texts.len() as int];
            let session = after(at_build(plan, build), checks(texts, orders));
            let asked = session.next(ReplyView::Captured(Ok(text)));
            let missing = session.next(ReplyView::Captured(Err(cause)));
            let older = asked.next(ReplyView::Compared(VersionOrder::Older));
            &&& session.pending() == (ActionView::QueryVersion { artifact })
            &&& asked.pending() == (ActionView::CompareVersions {
                artifact,
                installed: words(text)[1],
                version,
            })
            &&& missing.stage matches StageView::Builds { build: later } && to_be_built(later)
            &&& older.stage matches StageView::Builds { build: later } && to_be_built(later)
        }),
{
    lemma_checked(plan, build, version, texts, orders, texts.len());
    assert(texts.take(texts.len() as int) =~= texts);
}

/// From a list of what was built on, each file is inspected in turn, none left out,
/// before anything is installed.
pub proof fn law_every_file_is_inspected(
    plan: PlanView,
    build: BuildView,
    raw: Text,
    details: Seq<Text>,
)
    requires
        build.step is ListBuilt,
        details.len() < listed(raw).len(),
        forall|i: int| 0 <= i < details.len() ==> words(#[trigger] details[i]).len() > 0,
    ensures
        after(
            at_build(plan, build).next(ReplyView::Captured(Ok(raw))),
            outputs(details),
        ).pending() == (ActionView::InspectFile { file: listed(raw)[details.len() as int] }),
{
    let files = listed(raw);
    let first = BuildView {
        step: BuildStepView::Inspect { files, seen: 0, chosen: seq![] },
        ..build
    };
    let n = details.len();
    lemma_inspected(plan, first, files, details, n as int);
    assert(details.take(n as int) =~= details);
}

proof fn lemma_inspected(
    plan: PlanView,
    build: BuildView,
    files: Seq<Text>,
    details: Seq<Text>,
    k: int,
)
    requires
        build.step == (BuildStepView::Inspect { files, seen: 0, chosen: seq![] }),
        0 <= k < files.len(),
        k <= details.len(),
        forall|i: int| 0 <= i < k ==> words(#[trigger] details[i]).len() > 0,
    ensures
        after(at_build(plan, build), outputs(details.take(k))).stage matches StageView::Builds {
            build: later,
        } && later.index == build.index && (later.step matches BuildStepView::Inspect {
            files: all,
            seen,
            ..
        } && all == files && seen == k),
    decreases k,
{
    if k > 0 {
        lemma_inspected(plan, build, files, details, k - 1);
        lemma_outputs(at_build(plan, build), details, k);
        lemma_same_plan(at_build(plan, build), outputs(details.take(k - 1)));
        assert(words(details[k - 1]).len() > 0);
    } else {
        assert(outputs(details.take(0)) =~= seq![]);
    }
}

proof fn lemma_same_plan(session: SessionView, replies: Seq<ReplyView>)
    ensures
        after(session, replies).plan == session.plan,
    decreases replies.len(),
{
    if replies.len() > 0 {
        lemma_same_plan(session, replies.drop_last());
    }
}

/// The files that hold artifacts are picked one by one: a file is picked exactly if
/// the first word that is said of it is an artifact.
pub proof fn law_files_are_picked_one_by_one(
    files: Seq<Text>,
    file: Text,
    details: Seq<Text>,
    artifacts: Seq<Text>,
)
    ensures
        artifact_files(seq![], details, artifacts) == Seq::<Text>::empty(),
        artifacts.contains(words(details[files.len() as int])[0]) ==> artifact_files(
            files.push(file),
            details,
            artifacts,
        ) == artifact_files(files, details, artifacts).push(file),
        !artifacts.contains(words(details[files.len() as int])[0]) ==> artifact_files(
            files.push(file),
            details,
            artifacts,
        ) == artifact_files(files, details, artifacts),
{
    assert(files.push(file).drop_last() =~= files);
}

/// Replies are taken one after the other.
pub proof fn law_replies_are_taken_in_turn(
    session: SessionView,
    replies: Seq<ReplyView>,
    reply: ReplyView,
)
    ensures
        after(session, seq![]) == session,
        after(session, replies.push(reply)) == after(session, replies).next(reply),
{
    assert(replies.push(reply).drop_last() =~= replies);
}

} // verus!
