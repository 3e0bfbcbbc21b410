//! The cache of a run: the cloned repositories that are still of use.
use crate::action::{Action, ActionView};
use crate::config::{pkgbuild_views, Pkgbuild, PkgbuildView, Plan, PlanView};
use crate::failure::{Failure, FailureView};
use crate::reply::{Origin, OriginView, Reply, ReplyView, Turn};
use crate::text::Text;
use vstd::prelude::*;

verus! {

/// The model of `CacheStep`.
pub enum CacheStepView {
    Open,
    Next,
    Inspect { url: Text },
    Remove { reason: Text },
}

/// How far the cache is.
#[derive(Debug, PartialEq, Eq)]
pub enum CacheStep {
    /// The cache is being opened.
    Open,
    /// Its next entry is being looked for.
    Next,
    /// The entry belongs to a base that comes from this address. Where the entry comes
    /// from is being looked up.
    Inspect { url: String },
    /// The entry is being removed.
    Remove { reason: String },
}

impl View for CacheStep {
    type V = CacheStepView;

    open spec fn view(&self) -> CacheStepView {
        match self {
            CacheStep::Open => CacheStepView::Open,
            CacheStep::Next => CacheStepView::Next,
            CacheStep::Inspect { url } => CacheStepView::Inspect { url: url@ },
            CacheStep::Remove { reason } => CacheStepView::Remove { reason: reason@ },
        }
    }
}

/// The model of where the cache goes next.
pub open spec fn cache_turn_view(turn: Turn<CacheStep, Failure>) -> Turn<
    CacheStepView,
    FailureView,
> {
    match turn {
        Turn::On { step } => Turn::On { step: step@ },
        Turn::Over => Turn::Over,
        Turn::Failed { failure } => Turn::Failed { failure: failure@ },
    }
}

/// The address of the first base with this name.
pub open spec fn configured_url(pkgbuilds: Seq<PkgbuildView>, name: Text) -> Option<Text>
    decreases pkgbuilds.len(),
{
    if pkgbuilds.len() == 0 {
        None
    } else if pkgbuilds[0].base == name {
        Some(pkgbuilds[0].url())
    } else {
        configured_url(pkgbuilds.skip(1), name)
    }
}

/// Why an entry is of no use to a base that comes from `url`.
pub open spec fn reason_to_remove(origin: OriginView, url: Text) -> Option<Text> {
    match origin {
        OriginView::Url { url: found } => if found == url {
            None
        } else {
            Some("git URL changed: "@ + found + " -> "@ + url)
        },
        OriginView::UrlUnreadable { cause } => Some("could not read origin URL: "@ + cause),
        OriginView::NoRemote { cause } => Some("could not find origin remote: "@ + cause),
        OriginView::NoRepository { cause } => Some("invalid Git repository: "@ + cause),
    }
}

impl CacheStepView {
    /// What the step waits for.
    pub open spec fn pending(self) -> ActionView {
        match self {
            CacheStepView::Open => ActionView::OpenCache,
            CacheStepView::Next => ActionView::NextEntry,
            CacheStepView::Inspect { .. } => ActionView::InspectOrigin,
            CacheStepView::Remove { reason } => ActionView::RemoveEntry { reason },
        }
    }

    /// Where the cache goes from a step, once it has its reply. One that the
    /// step does not wait for changes nothing.
    pub open spec fn turn(self, plan: PlanView, reply: ReplyView) -> Turn<
        CacheStepView,
        FailureView,
    > {
        match (self, reply) {
            (CacheStepView::Open, ReplyView::Finished(Ok(()))) => Turn::On {
                step: CacheStepView::Next,
            },
            (CacheStepView::Open, ReplyView::Finished(Err(cause))) => Turn::Failed {
                failure: FailureView::Outside { cause },
            },
            (CacheStepView::Next, ReplyView::Entry(Ok(Some(name)))) => match configured_url(
                plan.pkgbuilds,
                name,
            ) {
                Some(url) => Turn::On { step: CacheStepView::Inspect { url } },
                None => Turn::On { step: CacheStepView::Remove { reason: "removed explicitly"@ } },
            },
            (CacheStepView::Next, ReplyView::Entry(Ok(None))) => Turn::Over,
            (CacheStepView::Next, ReplyView::Entry(Err(cause))) => Turn::Failed {
                failure: FailureView::Outside { cause },
            },
            (CacheStepView::Inspect { url }, ReplyView::Origin(origin)) => match reason_to_remove(
                origin,
                url,
            ) {
                Some(reason) => Turn::On { step: CacheStepView::Remove { reason } },
                None => Turn::On { step: CacheStepView::Next },
            },
            (CacheStepView::Remove { .. }, ReplyView::Finished(Ok(()))) => Turn::On {
                step: CacheStepView::Next,
            },
            (CacheStepView::Remove { .. }, ReplyView::Finished(Err(cause))) => Turn::Failed {
                failure: FailureView::Outside { cause },
            },
            _ => Turn::On { step: self },
        }
    }
}

/// Where the cache is: in the directory for caches, or in that of the user.
#[derive(Debug, PartialEq, Eq)]
pub enum CacheRoot<P> {
    /// In this directory.
    Xdg(P),
    /// In the directory for caches of this home directory.
    Home(P),
}

/// Where the cache is. A directory for caches counts before a home directory;
/// without either there is no place for it.
pub fn cache_root<P>(xdg: Option<P>, home: Option<P>) -> (root: Result<CacheRoot<P>, Failure>)
    ensures
        xdg matches Some(path) ==> root == Ok::<CacheRoot<P>, Failure>(CacheRoot::Xdg(path)),
        xdg is None ==> match home {
            Some(path) => root == Ok::<CacheRoot<P>, Failure>(CacheRoot::Home(path)),
            None => root == Err::<CacheRoot<P>, Failure>(Failure::NoHome),
        },
{
    match xdg {
        Some(path) => Ok(CacheRoot::Xdg(path)),
        None => match home {
            Some(path) => Ok(CacheRoot::Home(path)),
            None => Err(Failure::NoHome),
        },
    }
}

/// The address of the first base with this name.
pub fn find_url(pkgbuilds: &Vec<Pkgbuild>, name: &String) -> (url: Option<String>)
    ensures
        match url {
            Some(url) => configured_url(pkgbuild_views(pkgbuilds@), name@) == Some(url@),
            None => configured_url(pkgbuild_views(pkgbuilds@), name@) is None,
        },
        url is None <==> forall|i: int|
            0 <= i < pkgbuilds@.len() ==> (#[trigger] pkgbuilds@[i]).base@ != name@,
        url matches Some(url) ==> exists|i: int|
            {
                &&& 0 <= i < pkgbuilds@.len()
                &&& (#[trigger] pkgbuilds@[i]).base@ == name@
                &&& forall|j: int| 0 <= j < i ==> (#[trigger] pkgbuilds@[j]).base@ != name@
                &&& url@ == pkgbuilds@[i]@.url()
            },
{
    let ghost all = pkgbuild_views(pkgbuilds@);
    let mut i: usize = 0;
    proof {
        assert(all.skip(0) =~= all);
    }
    while i < pkgbuilds.len()
        invariant
            i <= pkgbuilds@.len(),
            all == pkgbuild_views(pkgbuilds@),
            configured_url(all, name@) == configured_url(all.skip(i as int), name@),
            forall|j: int| 0 <= j < i ==> (#[trigger] pkgbuilds@[j]).base@ != name@,
        decreases pkgbuilds@.len() - i,
    {
        proof {
            assert(all.skip(i as int)[0] == pkgbuilds@[i as int]@);
            assert(all.skip(i as int).skip(1) =~= all.skip(i + 1));
        }
        if pkgbuilds[i].base == *name {
            return Some(pkgbuilds[i].url());
        }
        i = i + 1;
    }
    None
}

/// Why an entry is of no use to a base that comes from `url`.
pub fn removal_reason(origin: &Origin, url: &String) -> (reason: Option<String>)
    ensures
        match reason {
            Some(reason) => reason_to_remove(origin@, url@) == Some(reason@),
            None => reason_to_remove(origin@, url@) is None,
        },
        reason is None <==> (origin matches Origin::Url { url: found } && found@ == url@),
{
    match origin {
        Origin::Url { url: found } => if *found == *url {
            None
        } else {
            Some(
                "git URL changed: ".to_string().concat(found.as_str()).concat(" -> ").concat(
                    url.as_str(),
                ),
            )
        },
        Origin::UrlUnreadable { cause } => Some(
            "could not read origin URL: ".to_string().concat(cause.as_str()),
        ),
        Origin::NoRemote { cause } => Some(
            "could not find origin remote: ".to_string().concat(cause.as_str()),
        ),
        Origin::NoRepository { cause } => Some(
            "invalid Git repository: ".to_string().concat(cause.as_str()),
        ),
    }
}

impl CacheStep {
    /// What the step waits for.
    pub fn pending(&self) -> (action: Action)
        ensures
            action@ == self@.pending(),
    {
        match self {
            CacheStep::Open => Action::OpenCache,
            CacheStep::Next => Action::NextEntry,
            CacheStep::Inspect { .. } => Action::InspectOrigin,
            CacheStep::Remove { reason } => Action::RemoveEntry { reason: reason.clone() },
        }
    }

    /// Where the cache goes from here, now that the reply is there. One that
    /// the step does not wait for changes nothing.
    pub fn turn(self, plan: &Plan, reply: Reply) -> (turn: Turn<CacheStep, Failure>)
        ensures
            cache_turn_view(turn) == self@.turn(plan@, reply@),
    {
        match (self, reply) {
            (CacheStep::Open, Reply::Finished(Ok(()))) => Turn::On { step: CacheStep::Next },
            (CacheStep::Open, Reply::Finished(Err(cause))) => Turn::Failed {
                failure: Failure::Outside { cause },
            },
            (CacheStep::Next, Reply::Entry(Ok(Some(name)))) => match find_url(
                &plan.pkgbuilds,
                &name,
            ) {
                Some(url) => Turn::On { step: CacheStep::Inspect { url } },
                None => Turn::On {
                    step: CacheStep::Remove { reason: "removed explicitly".to_string() },
                },
            },
            (CacheStep::Next, Reply::Entry(Ok(None))) => Turn::Over,
            (CacheStep::Next, Reply::Entry(Err(cause))) => Turn::Failed {
                failure: Failure::Outside { cause },
            },
            (CacheStep::Inspect { url }, Reply::Origin(origin)) => match removal_reason(
                &origin,
                &url,
            ) {
                Some(reason) => Turn::On { step: CacheStep::Remove { reason } },
                None => Turn::On { step: CacheStep::Next },
            },
            (CacheStep::Remove { .. }, Reply::Finished(Ok(()))) => Turn::On {
                step: CacheStep::Next,
            },
            (CacheStep::Remove { .. }, Reply::Finished(Err(cause))) => Turn::Failed {
                failure: Failure::Outside { cause },
            },
            (step, _) => Turn::On { step },
        }
    }
}

/// An entry belongs to the first base of its name, however many others stand
/// before it; where none has its name, it belongs to none.
pub proof fn law_first_base_of_the_name_counts(pkgbuilds: Seq<PkgbuildView>, name: Text, i: int)
    ensures
        (forall|j: int| 0 <= j < pkgbuilds.len() ==> (#[trigger] pkgbuilds[j]).base != name)
            ==> configured_url(pkgbuilds, name) is None,
        0 <= i < pkgbuilds.len() && pkgbuilds[i].base == name && (forall|j: int|
            0 <= j < i ==> (#[trigger] pkgbuilds[j]).base != name) ==> configured_url(
            pkgbuilds,
            name,
        ) == Some(pkgbuilds[i].url()),
    decreases pkgbuilds.len(),
{
    if pkgbuilds.len() > 0 && pkgbuilds[0].base != name {
        let rest = pkgbuilds.skip(1);
        law_first_base_of_the_name_counts(rest, name, i - 1);
        if forall|j: int| 0 <= j < pkgbuilds.len() ==> (#[trigger] pkgbuilds[j]).base != name {
            assert forall|j: int| 0 <= j < rest.len() implies (#[trigger] rest[j]).base != name by {
                assert(rest[j] == pkgbuilds[j + 1]);
            }
        }
        if 0 < i < pkgbuilds.len() && (forall|j: int|
            0 <= j < i ==> (#[trigger] pkgbuilds[j]).base != name) {
            assert forall|j: int| 0 <= j < i - 1 implies (#[trigger] rest[j]).base != name by {
                assert(rest[j] == pkgbuilds[j + 1]);
            }
            assert(rest[i - 1] == pkgbuilds[i]);
        }
    }
}

/// An entry stays exactly if it comes from where its base does. The reason to
/// remove it names both addresses, or what went wrong.
pub proof fn law_reasons_to_remove(origin: OriginView, url: Text)
    ensures
        reason_to_remove(origin, url) is None <==> origin == (OriginView::Url { url }),
        match origin {
            OriginView::Url { url: found } => found != url ==> reason_to_remove(origin, url)
                == Some("git URL changed: "@ + found + " -> "@ + url),
            OriginView::UrlUnreadable { cause } => reason_to_remove(origin, url) == Some(
                "could not read origin URL: "@ + cause,
            ),
            OriginView::NoRemote { cause } => reason_to_remove(origin, url) == Some(
                "could not find origin remote: "@ + cause,
            ),
            OriginView::NoRepository { cause } => reason_to_remove(origin, url) == Some(
                "invalid Git repository: "@ + cause,
            ),
        },
{
}

/// The cache is opened first. Then its entries are taken one by one: each is
/// inspected if it belongs to a base, and removed if there is a reason to, until
/// there are no more.
pub proof fn law_cache_goes_entry_by_entry(
    plan: PlanView,
    name: Text,
    url: Text,
    reason: Text,
    origin: OriginView,
)
    ensures
        ({
            let found = ReplyView::Entry(Ok(Some(name)));
            let remove = CacheStepView::Remove { reason };
            let inspect = CacheStepView::Inspect { url };
            let done = ReplyView::Finished(Ok(()));
            &&& CacheStepView::Open.pending() is OpenCache
            &&& CacheStepView::Next.pending() is NextEntry
            &&& inspect.pending() is InspectOrigin
            &&& remove.pending() == (ActionView::RemoveEntry { reason })
            &&& CacheStepView::Open.turn(plan, done) == (Turn::<_, FailureView>::On {
                step: CacheStepView::Next,
            })
            &&& remove.turn(plan, done) == (Turn::<_, FailureView>::On {
                step: CacheStepView::Next,
            })
            &&& CacheStepView::Next.turn(plan, ReplyView::Entry(Ok(None))) is Over
            &&& (forall|i: int|
                0 <= i < plan.pkgbuilds.len() ==> (#[trigger] plan.pkgbuilds[i]).base != name)
                ==> CacheStepView::Next.turn(plan, found) == (Turn::<_, FailureView>::On {
                step: CacheStepView::Remove { reason: "removed explicitly"@ },
            })
            &&& configured_url(plan.pkgbuilds, name) == Some(url) ==> CacheStepView::Next.turn(
                plan,
                found,
            ) == (Turn::<_, FailureView>::On { step: inspect })
            &&& origin == (OriginView::Url { url }) ==> inspect.turn(
                plan,
                ReplyView::Origin(origin),
            ) == (Turn::<_, FailureView>::On { step: CacheStepView::Next })
            &&& reason_to_remove(origin, url) == Some(reason) ==> inspect.turn(
                plan,
                ReplyView::Origin(origin),
            ) == (Turn::<_, FailureView>::On { step: remove })
        }),
{
    law_first_base_of_the_name_counts(plan.pkgbuilds, name, 0);
}

/// Whatever goes wrong with the cache ends the run, with its own message.
pub proof fn law_cache_errors_end_the_run(plan: PlanView, reason: Text, cause: Text)
    ensures
        ({
            let over = Turn::<CacheStepView, FailureView>::Failed {
                failure: FailureView::Outside { cause },
            };
            let broken = ReplyView::Finished(Err(cause));
            &&& CacheStepView::Open.turn(plan, broken) == over
            &&& CacheStepView::Next.turn(plan, ReplyView::Entry(Err(cause))) == over
            &&& (CacheStepView::Remove { reason }).turn(plan, broken) == over
        }),
{
}

/// The model of a step is the same step, with a text for each string.
pub proof fn law_cache_step_model(step: CacheStep)
    ensures
        match step {
            CacheStep::Open => step@ is Open,
            CacheStep::Next => step@ is Next,
            CacheStep::Inspect { url } => step@ == (CacheStepView::Inspect { url: url@ }),
            CacheStep::Remove { reason } => step@ == (CacheStepView::Remove { reason: reason@ }),
        },
{
}

} // verus!
