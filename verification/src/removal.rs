//! Which packages can be removed.
//!
//! A package goes only together with everything that requires it. One that
//! something else still requires is held back: it stays, as a dependency.
use crate::names::{
    copy_names, dedup, distinct, lemma_distinct, lemma_filter_contains, lemma_filter_take, name_set,
    outside, without,
};
use crate::text::{
    law_split_is_at_the_first_mark, law_split_undoes_joining, law_trimmed,
    law_trimming_keeps_words, lemma_texts_push, lines, split_at_first, split_lines, split_once,
    split_words, starts_with, texts, trim, trimmed, words, Text,
};
use vstd::hash_map::StringHashMap;
use vstd::hash_set::StringHashSet;
use vstd::prelude::*;

verus! {

/// The models of a list of lists of strings.
pub open spec fn nested(lists: Seq<Vec<String>>) -> Seq<Seq<Text>> {
    lists.map_values(|list: Vec<String>| texts(list@))
}

/// The last position of a package.
pub open spec fn last_place(packages: Seq<Text>, package: Text) -> Option<int>
    decreases packages.len(),
{
    if packages.len() == 0 {
        None
    } else if packages.last() == package {
        Some(packages.len() - 1)
    } else {
        last_place(packages.drop_last(), package)
    }
}

/// The packages that require `package`: what was found for it last.
pub open spec fn requirers(
    packages: Seq<Text>,
    required_by: Seq<Seq<Text>>,
    package: Text,
) -> Seq<Text> {
    match last_place(packages, package) {
        Some(i) => required_by[i],
        None => seq![],
    }
}

/// The requirers of each package.
pub open spec fn needs(packages: Seq<Text>, required_by: Seq<Seq<Text>>) -> spec_fn(
    Text,
) -> Seq<Text> {
    |package: Text| requirers(packages, required_by, package)
}

/// Everything that requires the package is in `going`.
pub open spec fn free(needs: spec_fn(Text) -> Seq<Text>, going: Seq<Text>) -> spec_fn(Text) -> bool {
    |package: Text| forall|other: Text| #[trigger]
        needs(package).contains(other) ==> going.contains(other)
}

/// Something that requires the package is not in `going`.
pub open spec fn bound(needs: spec_fn(Text) -> Seq<Text>, going: Seq<Text>) -> spec_fn(Text) -> bool {
    |package: Text| !free(needs, going)(package)
}

/// What is left of `going` when those that something else requires are taken
/// out, and those that they require in turn, until all that is left can go.
pub open spec fn settled(needs: spec_fn(Text) -> Seq<Text>, going: Seq<Text>) -> Seq<Text>
    decreases going.len(),
{
    let kept = going.filter(free(needs, going));
    if kept.len() < going.len() {
        settled(needs, kept)
    } else {
        going
    }
}

/// What `settled` takes out of `going`, in the order in which it goes.
pub open spec fn held_back(needs: spec_fn(Text) -> Seq<Text>, going: Seq<Text>) -> Seq<Text>
    decreases going.len(),
{
    let kept = going.filter(free(needs, going));
    if kept.len() < going.len() {
        going.filter(bound(needs, going)) + held_back(needs, kept)
    } else {
        seq![]
    }
}

/// The model of `Held`.
pub struct HeldView {
    pub package: Text,
    pub required_by: Seq<Text>,
}

/// A package that stays because others require it.
#[derive(Debug, PartialEq, Eq)]
pub struct Held {
    pub package: String,
    pub required_by: Vec<String>,
}

impl View for Held {
    type V = HeldView;

    open spec fn view(&self) -> HeldView {
        HeldView { package: self.package@, required_by: texts(self.required_by@) }
    }
}

/// The models of a list of held packages.
pub open spec fn held_views(list: Seq<Held>) -> Seq<HeldView> {
    list.map_values(|held: Held| held@)
}

/// The packages, each with those that require it.
pub open spec fn with_requirers(
    needs: spec_fn(Text) -> Seq<Text>,
    packages: Seq<Text>,
) -> Seq<HeldView> {
    packages.map_values(|package: Text| HeldView { package, required_by: needs(package) })
}

/// The packages that go.
pub open spec fn leaving(packages: Seq<Text>, required_by: Seq<Seq<Text>>) -> Seq<Text> {
    settled(needs(packages, required_by), distinct(packages))
}

/// The packages that are held back.
pub open spec fn staying(packages: Seq<Text>, required_by: Seq<Seq<Text>>) -> Seq<HeldView> {
    with_requirers(
        needs(packages, required_by),
        held_back(needs(packages, required_by), distinct(packages)),
    )
}

/// The names after the colon of a `Required By` line.
pub open spec fn required_names(line: Text) -> Seq<Text> {
    match split_at_first(line, ":"@) {
        Some((_, tail)) => words(trimmed(tail)).filter(|name: Text| name != "None"@),
        None => seq![],
    }
}

/// The names on the first `Required By` line.
pub open spec fn required_in(lines: Seq<Text>) -> Seq<Text>
    decreases lines.len(),
{
    if lines.len() == 0 {
        seq![]
    } else if "Required By"@.is_prefix_of(lines[0]) {
        required_names(lines[0])
    } else {
        required_in(lines.skip(1))
    }
}

/// Is a removal of `count` packages small enough to need no question? Counts
/// are taken modulo the range of the limit.
pub open spec fn within_limit(count: nat, limit: u32) -> bool {
    count % 0x1_0000_0000 <= limit
}

/// The text in lower case.
pub uninterp spec fn lowercase(s: Text) -> Text;

/// Every character of the text is an ASCII one.
pub open spec fn is_ascii_text(s: Text) -> bool {
    forall|i: int| 0 <= i < s.len() ==> (#[trigger] s[i] as u32) < 128
}

/// An ASCII character in lower case.
pub open spec fn ascii_lower(c: char) -> char {
    if 'A' <= c <= 'Z' {
        (c as u32 + 32) as char
    } else {
        c
    }
}

/// Does an answer, trimmed and in lower case, agree? An empty one takes the
/// default.
pub open spec fn agrees(lowered: Text, default: bool) -> bool {
    if lowered.len() == 0 {
        default
    } else {
        lowered == "y"@ || lowered == "yes"@
    }
}

/// Does an answer agree, as it was typed?
pub open spec fn confirms(answer: Text, default: bool) -> bool {
    agrees(lowercase(trimmed(answer)), default)
}

/// `str::to_lowercase`: "Returns the lowercase equivalent of this string slice,
/// as a new String." Its result is a function of the string alone. On ASCII it
/// changes only the letters A to Z, each to its small letter. A string that is not
/// empty has a lower case that is not empty, since each character maps to one or
/// more.
pub assume_specification[ str::to_lowercase ](s: &str) -> (lowered: String)
    ensures
        lowered@ == lowercase(s@),
        is_ascii_text(s@) ==> lowered@ == s@.map_values(|c: char| ascii_lower(c)),
        s@.len() > 0 ==> lowered@.len() > 0,
;

/// Is the removal of these packages small enough to need no question?
pub fn check_package_warn_limit(packages: &[String], limit: u32) -> (yes: bool)
    ensures
        yes == within_limit(packages@.len(), limit),
        packages@.len() <= u32::MAX ==> (yes <==> packages@.len() <= limit),
{
    let count: u64 = packages.len() as u64;
    proof {
        assert(count as u32 == count % 0x1_0000_0000u64) by (bit_vector);
    }
    let low: u32 = #[verifier::truncate] (count as u32);
    low <= limit
}

/// Does an answer agree, once trimmed and in lower case?
pub fn accepts(lowered: &String, default: bool) -> (yes: bool)
    ensures
        yes == agrees(lowered@, default),
        lowered@.len() == 0 ==> yes == default,
        lowered@.len() > 0 ==> (yes <==> lowered@ == "y"@ || lowered@ == "yes"@),
{
    if lowered.as_str().is_empty() {
        default
    } else {
        *lowered == "y".to_string() || *lowered == "yes".to_string()
    }
}

/// Does an answer agree? Blank ones take the default.
pub fn confirmed(answer: &str, default: bool) -> (yes: bool)
    ensures
        yes == confirms(answer@, default),
        trimmed(answer@).len() == 0 ==> yes == default,
        trimmed(answer@).len() > 0 ==> (yes <==> lowercase(trimmed(answer@)) == "y"@ || lowercase(
            trimmed(answer@),
        ) == "yes"@),
        trimmed(answer@).len() > 0 && is_ascii_text(trimmed(answer@)) ==> (yes <==> {
            let lowered = trimmed(answer@).map_values(|c: char| ascii_lower(c));
            lowered == "y"@ || lowered == "yes"@
        }),
{
    let cut = trim(answer);
    let lowered = cut.as_str().to_lowercase();
    accepts(&lowered, default)
}

/// What the user may answer, with the answer that a blank one stands for in
/// capitals.
pub open spec fn prompt_text(default: bool) -> Text {
    if default {
        "[Y/n]"@
    } else {
        "[y/N]"@
    }
}

/// What the user may answer.
pub fn prompt(default: bool) -> (text: String)
    ensures
        text@ == prompt_text(default),
        default ==> text@ == "[Y/n]"@,
        !default ==> text@ == "[y/N]"@,
{
    if default {
        "[Y/n]".to_string()
    } else {
        "[y/N]".to_string()
    }
}

/// The packages that require one, from what `pacman -Qi` says of it.
pub fn get_required_by(raw: &str) -> (found: Vec<String>)
    ensures
        texts(found@) == required_in(lines(raw@)),
{
    let all = split_lines(raw);
    let mut i: usize = 0;
    proof {
        assert(texts(all@).skip(0) =~= texts(all@));
    }
    while i < all.len()
        invariant
            i <= all@.len(),
            required_in(lines(raw@)) == required_in(texts(all@).skip(i as int)),
        decreases all@.len() - i,
    {
        let ghost rest = texts(all@).skip(i as int);
        proof {
            assert(rest[0] == all@[i as int]@);
            assert(rest.skip(1) =~= texts(all@).skip(i + 1));
        }
        if starts_with(all[i].as_str(), "Required By") {
            return names_after_colon(all[i].as_str());
        }
        i = i + 1;
    }
    Vec::new()
}

/// The names after the colon of a `Required By` line.
fn names_after_colon(line: &str) -> (found: Vec<String>)
    ensures
        texts(found@) == required_names(line@),
{
    let mut found: Vec<String> = Vec::new();
    match split_once(line, ":") {
        None => {
            assert(texts(found@) =~= seq![]);
            found
        },
        Some((_, tail)) => {
            let all = split_words(trim(tail.as_str()).as_str());
            let none = "None".to_string();
            let ghost keep = |name: Text| name != "None"@;
            let mut i: usize = 0;
            proof {
                reveal(Seq::filter);
                assert(texts(found@) =~= texts(all@).take(0).filter(keep));
            }
            while i < all.len()
                invariant
                    i <= all@.len(),
                    none@ == "None"@,
                    keep == (|name: Text| name != "None"@),
                    texts(found@) == texts(all@).take(i as int).filter(keep),
                decreases all@.len() - i,
            {
                proof {
                    lemma_filter_take(texts(all@), keep, i as int);
                    lemma_texts_push(found@, all@[i as int]);
                }
                if all[i] != none {
                    found.push(all[i].clone());
                }
                i = i + 1;
            }
            proof {
                assert(texts(all@).take(i as int) =~= texts(all@));
            }
            found
        },
    }
}

/// The outcome of `filter_removable`.
#[derive(Debug, PartialEq, Eq)]
pub struct Removable {
    /// The packages to remove.
    pub leaving: Vec<String>,
    /// The packages to keep as dependencies.
    pub staying: Vec<Held>,
}

/// The position of each package's last entry.
fn last_positions(packages: &[String]) -> (found: StringHashMap<usize>)
    ensures
        forall|name: Text| #[trigger]
            found@.contains_key(name) <==> texts(packages@).contains(name),
        forall|name: Text| #[trigger]
            found@.contains_key(name) ==> found@[name] < packages@.len() && last_place(
                texts(packages@),
                name,
            ) == Some(found@[name] as int),
{
    let mut found: StringHashMap<usize> = StringHashMap::new();
    let ghost all = texts(packages@);
    let mut i: usize = 0;
    while i < packages.len()
        invariant
            i <= packages@.len(),
            all == texts(packages@),
            forall|name: Text| #[trigger]
                found@.contains_key(name) <==> all.take(i as int).contains(name),
            forall|name: Text| #[trigger]
                found@.contains_key(name) ==> found@[name] < i && last_place(
                    all.take(i as int),
                    name,
                ) == Some(found@[name] as int),
        decreases packages@.len() - i,
    {
        let ghost earlier = all.take(i as int);
        let ghost later = all.take(i + 1);
        let ghost before = found@;
        found.insert(packages[i].clone(), i);
        proof {
            assert(later.drop_last() =~= earlier);
            assert(later.last() == packages@[i as int]@);
            assert forall|name: Text| #[trigger]
                found@.contains_key(name) <==> later.contains(name) by {
                if earlier.contains(name) {
                    let k = choose|k: int| 0 <= k < earlier.len() && earlier[k] == name;
                    assert(later[k] == name);
                }
                assert(later[i as int] == packages@[i as int]@);
                if later.contains(name) {
                    let k = choose|k: int| 0 <= k < later.len() && later[k] == name;
                    if k < i {
                        assert(earlier[k] == name);
                    }
                }
            }
            assert forall|name: Text| #[trigger] found@.contains_key(name) implies found@[name] < i
                + 1 && last_place(later, name) == Some(found@[name] as int) by {
                if name != packages@[i as int]@ {
                    assert(before.contains_key(name));
                }
            }
        }
        i = i + 1;
    }
    proof {
        assert(all.take(i as int) =~= all);
    }
    found
}

/// Are all these names in the set?
fn all_inside(list: &[String], set: &StringHashSet) -> (yes: bool)
    ensures
        yes == forall|name: Text| #[trigger] texts(list@).contains(name) ==> set@.contains(name),
{
    let mut i: usize = 0;
    while i < list.len()
        invariant
            i <= list@.len(),
            forall|j: int| 0 <= j < i ==> set@.contains(#[trigger] texts(list@)[j]),
        decreases list@.len() - i,
    {
        if !set.contains(list[i].as_str()) {
            proof {
                assert(texts(list@)[i as int] == list@[i as int]@);
                assert(texts(list@).contains(list@[i as int]@));
            }
            return false;
        }
        i = i + 1;
    }
    true
}

/// Picks the packages that can go: those that nothing requires but packages
/// that go too. The others are held back, in the order in which they are found
/// to be needed.
///
/// `required_by` gives, for each package in turn, what requires it.
pub fn filter_removable(to_remove: &[String], required_by: &Vec<Vec<String>>) -> (picked: Removable)
    requires
        to_remove@.len() == required_by@.len(),
    ensures
        texts(picked.leaving@) == leaving(texts(to_remove@), nested(required_by@)),
        held_views(picked.staying@) == staying(texts(to_remove@), nested(required_by@)),
        forall|i: int, other: Text|
            #![trigger texts(required_by@[i]@).contains(other)]
            asked_last(texts(to_remove@), i) && texts(picked.leaving@).contains(to_remove@[i]@)
                && texts(required_by@[i]@).contains(other) ==> texts(picked.leaving@).contains(
                other,
            ),
        forall|i: int, h: int|
            #![trigger to_remove@[i], picked.staying@[h]]
            asked_last(texts(to_remove@), i) && 0 <= h < picked.staying@.len()
                && picked.staying@[h].package@ == to_remove@[i]@ ==> texts(
                picked.staying@[h].required_by@,
            ) == texts(required_by@[i]@),
        forall|i: int|
            0 <= i < to_remove@.len() && !texts(picked.leaving@).contains(
                (#[trigger] to_remove@[i])@,
            ) ==> exists|h: int|
                0 <= h < picked.staying@.len() && #[trigger] picked.staying@[h].package@
                    == to_remove@[i]@,
{
    let places = last_positions(to_remove);
    let ghost all = texts(to_remove@);
    let ghost wants = needs(all, nested(required_by@));
    let mut going = dedup(to_remove);
    let mut staying: Vec<Held> = Vec::new();
    proof {
        lemma_distinct(all);
        assert(held_views(staying@) + with_requirers(wants, held_back(wants, distinct(all)))
            =~= with_requirers(wants, held_back(wants, distinct(all))));
    }
    loop
        invariant
            all == texts(to_remove@),
            wants == needs(all, nested(required_by@)),
            to_remove@.len() == required_by@.len(),
            forall|name: Text| #[trigger] places@.contains_key(name) <==> all.contains(name),
            forall|name: Text| #[trigger]
                places@.contains_key(name) ==> places@[name] < to_remove@.len() && last_place(
                    all,
                    name,
                ) == Some(places@[name] as int),
            forall|name: Text| #[trigger] texts(going@).contains(name) ==> all.contains(name),
            settled(wants, texts(going@)) == settled(wants, distinct(all)),
            held_views(staying@) + with_requirers(wants, held_back(wants, texts(going@)))
                == with_requirers(wants, held_back(wants, distinct(all))),
        ensures
            texts(going@) == settled(wants, distinct(all)),
            held_views(staying@) == with_requirers(wants, held_back(wants, distinct(all))),
        decreases going@.len(),
    {
        let set = name_set(going.as_slice());
        let ghost now = texts(going@);
        let ghost before = held_views(staying@);
        let mut kept: Vec<String> = Vec::new();
        let mut i: usize = 0;
        proof {
            reveal(Seq::filter);
            assert(texts(kept@) =~= now.take(0).filter(free(wants, now)));
            assert(before + with_requirers(wants, now.take(0).filter(bound(wants, now)))
                =~= held_views(staying@));
        }
        while i < going.len()
            invariant
                i <= going@.len(),
                now == texts(going@),
                all == texts(to_remove@),
                wants == needs(all, nested(required_by@)),
                to_remove@.len() == required_by@.len(),
                forall|name: Text| #[trigger] places@.contains_key(name) <==> all.contains(name),
                forall|name: Text| #[trigger]
                    places@.contains_key(name) ==> places@[name] < to_remove@.len() && last_place(
                        all,
                        name,
                    ) == Some(places@[name] as int),
                forall|name: Text| #[trigger] now.contains(name) ==> all.contains(name),
                forall|name: Text| #[trigger] set@.contains(name) <==> now.contains(name),
                texts(kept@) == now.take(i as int).filter(free(wants, now)),
                held_views(staying@) == before + with_requirers(
                    wants,
                    now.take(i as int).filter(bound(wants, now)),
                ),
                texts(kept@).len() <= i,
                texts(kept@).len() == i ==> held_views(staying@) == before,
            decreases going@.len() - i,
        {
            let ghost name = going@[i as int]@;
            proof {
                assert(now[i as int] == name);
                assert(now.contains(name));
                lemma_filter_take(now, free(wants, now), i as int);
                lemma_filter_take(now, bound(wants, now), i as int);
                lemma_texts_push(kept@, going@[i as int]);
            }
            match places.get(going[i].as_str()) {
                Some(place) => {
                    proof {
                        assert(requirers(all, nested(required_by@), name) == nested(
                            required_by@,
                        )[*place as int]);
                        assert(wants(name) == texts(required_by@[*place as int]@));
                    }
                    let can_be_removed = all_inside(required_by[*place].as_slice(), &set);
                    assert(can_be_removed == free(wants, now)(name));
                    if can_be_removed {
                        kept.push(going[i].clone());
                    } else {
                        let ghost so_far = staying@;
                        let ghost firsts = now.take(i as int).filter(bound(wants, now));
                        staying.push(
                            Held {
                                package: going[i].clone(),
                                required_by: copy_names(required_by[*place].as_slice()),
                            },
                        );
                        proof {
                            assert(held_views(staying@) =~= held_views(so_far).push(
                                HeldView { package: name, required_by: wants(name) },
                            ));
                            assert(before + with_requirers(wants, firsts.push(name)) =~= (before
                                + with_requirers(wants, firsts)).push(
                                HeldView { package: name, required_by: wants(name) },
                            ));
                        }
                    }
                },
                None => {
                    assert(false);
                },
            }
            i = i + 1;
        }
        proof {
            assert(now.take(i as int) =~= now);
        }
        if kept.len() == going.len() {
            proof {
                assert(held_back(wants, now) =~= seq![]);
                assert(before + with_requirers(wants, held_back(wants, now)) =~= before);
            }
            break;
        }
        proof {
            let out = now.filter(bound(wants, now));
            assert forall|name: Text| #[trigger] texts(kept@).contains(name) implies all.contains(
                name,
            ) by {
                lemma_filter_contains(now, free(wants, now), name);
            }
            assert(before + with_requirers(wants, out + held_back(wants, texts(kept@)))
                =~= held_views(staying@) + with_requirers(wants, held_back(wants, texts(kept@))));
        }
        going = kept;
    }
    proof {
        let found = nested(required_by@);
        let held = held_views(staying@);
        assert forall|i: int, other: Text|
            #![trigger texts(required_by@[i]@).contains(other)]
            asked_last(all, i) && texts(going@).contains(to_remove@[i]@) && texts(
                required_by@[i]@,
            ).contains(other) implies texts(going@).contains(other) by {
            assert(found[i] == texts(required_by@[i]@));
            law_requirers_leave_too(all, found, i, other);
        }
        assert forall|i: int, h: int|
            #![trigger to_remove@[i], staying@[h]]
            asked_last(all, i) && 0 <= h < staying@.len() && staying@[h].package@
                == to_remove@[i]@ implies texts(staying@[h].required_by@) == texts(
            required_by@[i]@,
        ) by {
            assert(found[i] == texts(required_by@[i]@));
            assert(held[h] == staying@[h]@);
            assert(held == self::staying(all, found));
            assert(held[h].package == all[i]);
            law_held_with_all_its_requirers(all, found, i);
            assert(held[h].required_by == found[i]);
        }
        assert forall|i: int|
            0 <= i < to_remove@.len() && !texts(going@).contains(
                (#[trigger] to_remove@[i])@,
            ) implies exists|h: int|
            0 <= h < staying@.len() && #[trigger] staying@[h].package@ == to_remove@[i]@ by {
            assert(all[i] == to_remove@[i]@);
            assert(all.contains(all[i]));
            let k = lemma_some_last(all, all[i]);
            law_held_with_all_its_requirers(all, found, k);
            let h = choose|h: int| 0 <= h < held.len() && #[trigger] held[h].package == all[k];
            assert(staying@[h].package@ == to_remove@[i]@);
        }
    }
    Removable { leaving: going, staying }
}

/// Whatever requires a package of the set is in the set.
pub open spec fn closed_under(needs: spec_fn(Text) -> Seq<Text>, set: Set<Text>) -> bool {
    forall|package: Text, other: Text|
        set.contains(package) && #[trigger] needs(package).contains(other) ==> set.contains(other)
}

/// The set holds only packages of the list.
pub open spec fn drawn_from(set: Set<Text>, packages: Seq<Text>) -> bool {
    forall|package: Text| #[trigger] set.contains(package) ==> packages.contains(package)
}

/// Some of the packages, `package` among them, can go without leaving behind
/// anything that requires them.
pub open spec fn can_leave(
    needs: spec_fn(Text) -> Seq<Text>,
    packages: Seq<Text>,
    package: Text,
) -> bool {
    exists|set: Set<Text>| #[trigger]
        closed_under(needs, set) && drawn_from(set, packages) && set.contains(package)
}

proof fn lemma_filter_keeps_all<A>(s: Seq<A>, keep: spec_fn(A) -> bool)
    requires
        s.filter(keep).len() >= s.len(),
    ensures
        forall|i: int| 0 <= i < s.len() ==> keep(#[trigger] s[i]),
    decreases s.len(),
{
    reveal(Seq::filter);
    if s.len() > 0 {
        s.drop_last().lemma_filter_len(keep);
        lemma_filter_keeps_all(s.drop_last(), keep);
        assert forall|i: int| 0 <= i < s.len() implies keep(#[trigger] s[i]) by {
            if i < s.len() - 1 {
                assert(s.drop_last()[i] == s[i]);
            }
        }
    }
}

proof fn lemma_filter_no_duplicates<A>(s: Seq<A>, keep: spec_fn(A) -> bool)
    requires
        s.no_duplicates(),
    ensures
        s.filter(keep).no_duplicates(),
    decreases s.len(),
{
    reveal(Seq::filter);
    if s.len() > 0 {
        let shorter = s.drop_last();
        lemma_filter_no_duplicates(shorter, keep);
        lemma_filter_contains(shorter, keep, s.last());
    }
}

proof fn lemma_settled(needs: spec_fn(Text) -> Seq<Text>, going: Seq<Text>)
    ensures
        forall|p: Text| #[trigger] settled(needs, going).contains(p) ==> going.contains(p),
        forall|p: Text, other: Text|
            settled(needs, going).contains(p) && #[trigger] needs(p).contains(other) ==> settled(
                needs,
                going,
            ).contains(other),
    decreases going.len(),
{
    let kept = going.filter(free(needs, going));
    if kept.len() < going.len() {
        lemma_settled(needs, kept);
        assert forall|p: Text| #[trigger] settled(needs, going).contains(p) implies going.contains(
            p,
        ) by {
            assert(settled(needs, kept).contains(p));
            lemma_filter_contains(going, free(needs, going), p);
        }
    } else {
        lemma_filter_keeps_all(going, free(needs, going));
        assert forall|p: Text, other: Text| going.contains(p) && #[trigger] needs(p).contains(
            other,
        ) implies going.contains(other) by {
            let k = choose|k: int| 0 <= k < going.len() && going[k] == p;
            assert(free(needs, going)(going[k]));
        }
    }
}

proof fn lemma_settled_greatest(
    needs: spec_fn(Text) -> Seq<Text>,
    going: Seq<Text>,
    set: Set<Text>,
)
    requires
        closed_under(needs, set),
        drawn_from(set, going),
    ensures
        drawn_from(set, settled(needs, going)),
    decreases going.len(),
{
    let kept = going.filter(free(needs, going));
    if kept.len() < going.len() {
        assert forall|p: Text| #[trigger] set.contains(p) implies kept.contains(p) by {
            assert(free(needs, going)(p));
            lemma_filter_contains(going, free(needs, going), p);
        }
        lemma_settled_greatest(needs, kept, set);
    }
}

proof fn lemma_held_back(needs: spec_fn(Text) -> Seq<Text>, going: Seq<Text>, p: Text)
    ensures
        going.contains(p) <==> settled(needs, going).contains(p) || held_back(
            needs,
            going,
        ).contains(p),
        !(settled(needs, going).contains(p) && held_back(needs, going).contains(p)),
        held_back(needs, going).contains(p) ==> exists|other: Text| #[trigger]
            needs(p).contains(other) && !settled(needs, going).contains(other),
    decreases going.len(),
{
    let keep = free(needs, going);
    let kept = going.filter(keep);
    if kept.len() < going.len() {
        let out = going.filter(bound(needs, going));
        let later = held_back(needs, kept);
        lemma_held_back(needs, kept, p);
        lemma_settled(needs, kept);
        lemma_filter_contains(going, keep, p);
        lemma_filter_contains(going, bound(needs, going), p);
        assert((out + later).contains(p) <==> out.contains(p) || later.contains(p)) by {
            if out.contains(p) {
                let k = choose|k: int| 0 <= k < out.len() && out[k] == p;
                assert((out + later)[k] == p);
            }
            if later.contains(p) {
                let k = choose|k: int| 0 <= k < later.len() && later[k] == p;
                assert((out + later)[out.len() + k] == p);
            }
        }
        if out.contains(p) {
            let other = choose|other: Text| #[trigger]
                needs(p).contains(other) && !going.contains(other);
            lemma_filter_contains(going, keep, other);
            assert(needs(p).contains(other) && !settled(needs, kept).contains(other));
        }
    }
}

proof fn lemma_no_duplicates(needs: spec_fn(Text) -> Seq<Text>, going: Seq<Text>)
    requires
        going.no_duplicates(),
    ensures
        settled(needs, going).no_duplicates(),
        held_back(needs, going).no_duplicates(),
    decreases going.len(),
{
    let keep = free(needs, going);
    let kept = going.filter(keep);
    lemma_filter_no_duplicates(going, keep);
    if kept.len() < going.len() {
        let out = going.filter(bound(needs, going));
        let later = held_back(needs, kept);
        lemma_filter_no_duplicates(going, bound(needs, going));
        lemma_no_duplicates(needs, kept);
        assert forall|i: int, j: int|
            0 <= i < (out + later).len() && 0 <= j < (out + later).len() && i != j implies (out
            + later)[i] != (out + later)[j] by {
            assert forall|a: int, b: int| 0 <= a < out.len() && 0 <= b < later.len() implies out[a]
                != later[b] by {
                if out[a] == later[b] {
                    assert(later.contains(later[b]));
                    assert(out.contains(out[a]));
                    lemma_held_back(needs, kept, later[b]);
                    lemma_filter_contains(going, keep, later[b]);
                    lemma_filter_contains(going, bound(needs, going), out[a]);
                }
            }
        }
    }
}

/// The packages that leave are the most that can: a package leaves exactly if
/// it is in some part of the candidates that can go as a whole.
pub proof fn law_leaving_is_greatest(
    packages: Seq<Text>,
    required_by: Seq<Seq<Text>>,
    package: Text,
)
    ensures
        leaving(packages, required_by).contains(package) <==> can_leave(
            needs(packages, required_by),
            packages,
            package,
        ),
{
    let wants = needs(packages, required_by);
    let going = distinct(packages);
    lemma_distinct(packages);
    lemma_settled(wants, going);
    if leaving(packages, required_by).contains(package) {
        let set = Set::new(|p: Text| settled(wants, going).contains(p));
        assert(closed_under(wants, set) && drawn_from(set, packages) && set.contains(package)) by {
            assert forall|p: Text| #[trigger] set.contains(p) implies packages.contains(p) by {
                assert(distinct(packages).contains(p));
            }
        }
    }
    if can_leave(wants, packages, package) {
        let set = choose|set: Set<Text>| #[trigger]
            closed_under(wants, set) && drawn_from(set, packages) && set.contains(package);
        assert forall|p: Text| #[trigger] set.contains(p) implies going.contains(p) by {
            assert(distinct(packages).contains(p) <==> packages.contains(p));
        }
        lemma_settled_greatest(wants, going, set);
    }
}

/// Nothing that requires a package that leaves is left behind.
pub proof fn law_no_broken_requirement(
    packages: Seq<Text>,
    required_by: Seq<Seq<Text>>,
    package: Text,
    other: Text,
)
    requires
        leaving(packages, required_by).contains(package),
        requirers(packages, required_by, package).contains(other),
    ensures
        leaving(packages, required_by).contains(other),
{
    let wants = needs(packages, required_by);
    lemma_settled(wants, distinct(packages));
    assert(wants(package).contains(other));
}

/// A package stays only because something that does not leave requires it.
pub proof fn law_staying_is_required(
    packages: Seq<Text>,
    required_by: Seq<Seq<Text>>,
    i: int,
)
    requires
        0 <= i < staying(packages, required_by).len(),
    ensures
        ({
            let held = staying(packages, required_by)[i];
            &&& held.required_by == requirers(packages, required_by, held.package)
            &&& exists|other: Text| #[trigger]
                held.required_by.contains(other) && !leaving(packages, required_by).contains(other)
        }),
{
    let wants = needs(packages, required_by);
    let back = held_back(wants, distinct(packages));
    assert(back.contains(back[i]));
    lemma_held_back(wants, distinct(packages), back[i]);
    let other = choose|other: Text| #[trigger]
        wants(back[i]).contains(other) && !settled(wants, distinct(packages)).contains(other);
    assert(staying(packages, required_by)[i].required_by.contains(other));
}

/// Each candidate either leaves or stays, once; nothing else does.
pub proof fn law_each_candidate_is_decided(
    packages: Seq<Text>,
    required_by: Seq<Seq<Text>>,
    package: Text,
)
    ensures
        ({
            let out = leaving(packages, required_by);
            let kept = staying(packages, required_by).map_values(|held: HeldView| held.package);
            &&& packages.contains(package) <==> out.contains(package) || kept.contains(package)
            &&& !(out.contains(package) && kept.contains(package))
            &&& out.no_duplicates()
            &&& kept.no_duplicates()
        }),
{
    let wants = needs(packages, required_by);
    let going = distinct(packages);
    lemma_distinct(packages);
    lemma_held_back(wants, going, package);
    lemma_no_duplicates(wants, going);
    assert(staying(packages, required_by).map_values(|held: HeldView| held.package) =~= held_back(
        wants,
        going,
    ));
    assert(distinct(packages).contains(package) <==> packages.contains(package));
}

/// What leaves does not depend on the order of the candidates.
pub proof fn law_order_does_not_matter(
    packages: Seq<Text>,
    required_by: Seq<Seq<Text>>,
    others: Seq<Text>,
    others_required_by: Seq<Seq<Text>>,
    package: Text,
)
    requires
        forall|p: Text| #[trigger] packages.contains(p) <==> others.contains(p),
        forall|p: Text, q: Text|
            packages.contains(p) ==> (#[trigger] requirers(packages, required_by, p).contains(q)
                <==> requirers(others, others_required_by, p).contains(q)),
    ensures
        leaving(packages, required_by).contains(package) <==> leaving(
            others,
            others_required_by,
        ).contains(package),
{
    let one = needs(packages, required_by);
    let two = needs(others, others_required_by);
    law_leaving_is_greatest(packages, required_by, package);
    law_leaving_is_greatest(others, others_required_by, package);
    if can_leave(one, packages, package) {
        let set = choose|set: Set<Text>| #[trigger]
            closed_under(one, set) && drawn_from(set, packages) && set.contains(package);
        assert forall|p: Text, q: Text|
            set.contains(p) && #[trigger] two(p).contains(q) implies set.contains(q) by {
            assert(requirers(packages, required_by, p).contains(q));
            assert(one(p).contains(q));
        }
        assert(closed_under(two, set) && drawn_from(set, others) && set.contains(package));
    }
    if can_leave(two, others, package) {
        let set = choose|set: Set<Text>| #[trigger]
            closed_under(two, set) && drawn_from(set, others) && set.contains(package);
        assert forall|p: Text, q: Text|
            set.contains(p) && #[trigger] one(p).contains(q) implies set.contains(q) by {
            assert(requirers(packages, required_by, p).contains(q));
            assert(two(p).contains(q));
        }
        assert(closed_under(one, set) && drawn_from(set, packages) && set.contains(package));
    }
}

/// `i` is the last place of its package, so what was found for it there counts.
pub open spec fn asked_last(packages: Seq<Text>, i: int) -> bool {
    0 <= i < packages.len() && forall|j: int| i < j < packages.len() ==> packages[j] != packages[i]
}

proof fn lemma_last_place(packages: Seq<Text>, i: int)
    requires
        asked_last(packages, i),
    ensures
        last_place(packages, packages[i]) == Some(i),
    decreases packages.len(),
{
    if i < packages.len() - 1 {
        let shorter = packages.drop_last();
        assert(packages[packages.len() - 1] != packages[i]);
        assert forall|j: int| i < j < shorter.len() implies shorter[j] != shorter[i] by {
            assert(packages[j] != packages[i]);
        }
        lemma_last_place(shorter, i);
    }
}

proof fn lemma_some_last(packages: Seq<Text>, package: Text) -> (i: int)
    requires
        packages.contains(package),
    ensures
        asked_last(packages, i),
        packages[i] == package,
    decreases packages.len(),
{
    if packages.last() == package {
        packages.len() - 1
    } else {
        let shorter = packages.drop_last();
        let k = choose|k: int| 0 <= k < packages.len() && packages[k] == package;
        assert(shorter[k] == package);
        let i = lemma_some_last(shorter, package);
        assert forall|j: int| i < j < packages.len() implies packages[j] != packages[i] by {
            if j < shorter.len() {
                assert(shorter[j] != shorter[i]);
            }
        }
        i
    }
}

/// A package leaves only together with everything that was found to require it.
pub proof fn law_requirers_leave_too(
    packages: Seq<Text>,
    required_by: Seq<Seq<Text>>,
    i: int,
    other: Text,
)
    requires
        asked_last(packages, i),
        leaving(packages, required_by).contains(packages[i]),
        required_by[i].contains(other),
    ensures
        leaving(packages, required_by).contains(other),
{
    lemma_last_place(packages, i);
    law_no_broken_requirement(packages, required_by, packages[i], other);
}

/// A package that does not leave is held back, together with all that was found
/// to require it, and something of that does not leave either.
pub proof fn law_held_with_all_its_requirers(
    packages: Seq<Text>,
    required_by: Seq<Seq<Text>>,
    i: int,
)
    requires
        asked_last(packages, i),
    ensures
        ({
            let out = leaving(packages, required_by);
            let held = staying(packages, required_by);
            &&& out.contains(packages[i]) <==> !exists|h: int|
                0 <= h < held.len() && #[trigger] held[h].package == packages[i]
            &&& forall|h: int|
                0 <= h < held.len() && #[trigger] held[h].package == packages[i]
                    ==> held[h].required_by == required_by[i]
            &&& !out.contains(packages[i]) ==> exists|other: Text| #[trigger]
                required_by[i].contains(other) && !out.contains(other)
        }),
{
    let out = leaving(packages, required_by);
    let held = staying(packages, required_by);
    let kept = held.map_values(|held: HeldView| held.package);
    lemma_last_place(packages, i);
    law_each_candidate_is_decided(packages, required_by, packages[i]);
    assert(packages.contains(packages[i]));
    assert forall|h: int|
        0 <= h < held.len() && #[trigger] held[h].package == packages[i] implies kept.contains(
        packages[i],
    ) && held[h].required_by == required_by[i] by {
        assert(kept[h] == packages[i]);
        law_staying_is_required(packages, required_by, h);
    }
    if !out.contains(packages[i]) {
        let h = choose|h: int| 0 <= h < kept.len() && kept[h] == packages[i];
        assert(held[h].package == packages[i]);
        law_staying_is_required(packages, required_by, h);
        let other = choose|other: Text| #[trigger]
            held[h].required_by.contains(other) && !out.contains(other);
        assert(required_by[i].contains(other));
    }
}

/// Nothing is held back without need: packages that are only required by one
/// another all leave.
pub proof fn law_what_can_go_goes(
    packages: Seq<Text>,
    required_by: Seq<Seq<Text>>,
    set: Set<Text>,
)
    requires
        forall|p: Text| #[trigger] set.contains(p) ==> packages.contains(p),
        forall|i: int, other: Text|
            #![trigger required_by[i].contains(other)]
            asked_last(packages, i) && set.contains(packages[i]) && required_by[i].contains(other)
                ==> set.contains(other),
    ensures
        forall|p: Text| #[trigger] set.contains(p) ==> leaving(packages, required_by).contains(p),
{
    let wants = needs(packages, required_by);
    assert forall|p: Text, other: Text|
        set.contains(p) && #[trigger] wants(p).contains(other) implies set.contains(other) by {
        let i = lemma_some_last(packages, p);
        lemma_last_place(packages, i);
        assert(required_by[i].contains(other));
    }
    assert(closed_under(wants, set) && drawn_from(set, packages));
    assert forall|p: Text| #[trigger] set.contains(p) implies leaving(
        packages,
        required_by,
    ).contains(p) by {
        law_leaving_is_greatest(packages, required_by, p);
    }
}

/// The first line that starts with `Required By` is the one that counts; without
/// one, nothing requires the package.
pub proof fn law_first_required_line_counts(before: Seq<Text>, line: Text, behind: Seq<Text>)
    requires
        forall|i: int|
            0 <= i < before.len() ==> !"Required By"@.is_prefix_of(#[trigger] before[i]),
    ensures
        required_in(before) == Seq::<Text>::empty(),
        "Required By"@.is_prefix_of(line) ==> required_in(before.push(line) + behind)
            == required_names(line),
    decreases before.len(),
{
    let all = before.push(line) + behind;
    if before.len() > 0 {
        let rest = before.skip(1);
        assert(!"Required By"@.is_prefix_of(before[0]));
        assert forall|i: int| 0 <= i < rest.len() implies !"Required By"@.is_prefix_of(
            #[trigger] rest[i],
        ) by {
            assert(rest[i] == before[i + 1]);
        }
        law_first_required_line_counts(rest, line, behind);
        assert(all[0] == before[0]);
        assert(all.skip(1) =~= rest.push(line) + behind);
    } else {
        assert(all[0] == line);
    }
}

/// What such a line says: the words after its first colon, but for `None`.
pub proof fn law_names_stand_after_the_colon(head: Text, tail: Text)
    requires
        !head.contains(':'),
    ensures
        required_names(head.push(':') + tail) == without(words(tail), seq!["None"@]),
        required_names(head) == Seq::<Text>::empty(),
{
    reveal_strlit(":");
    let all = head.push(':') + tail;
    assert(all =~= head + ":"@ + tail);
    assert forall|j: int| 0 <= j < head.len() implies #[trigger] (head + ":"@ + tail).subrange(
        j,
        j + ":"@.len(),
    ) != ":"@ by {
        assert(head.contains(head[j]));
        assert((head + ":"@ + tail).subrange(j, j + 1)[0] == head[j]);
    }
    law_split_undoes_joining(head, ":"@, tail);
    law_trimming_keeps_words(tail);
    let one = |name: Text| name != "None"@;
    assert forall|name: Text| #[trigger] one(name) == outside(seq!["None"@])(name) by {
        assert(seq!["None"@].contains("None"@)) by {
            assert(seq!["None"@][0] == "None"@);
        }
    }
    assert(one =~= outside(seq!["None"@]));
    law_split_is_at_the_first_mark(head, ":"@);
    if let Some((first, rest)) = split_at_first(head, ":"@) {
        assert(head[first.len() as int] == ':');
        assert(head.contains(':'));
    }
}

/// A removal needs no question exactly if it is of no more packages than the
/// limit, as long as their number is in the range of the limit; beyond that the
/// count starts over.
pub proof fn law_limit(count: nat, limit: u32)
    ensures
        count <= u32::MAX ==> (within_limit(count, limit) <==> count <= limit),
        within_limit(count + 0x1_0000_0000, limit) == within_limit(count, limit),
{
}

/// An empty answer means the default; any other agrees exactly if it is `y` or
/// `yes`, whatever the default.
pub proof fn law_answer(lowered: Text, default: bool)
    ensures
        agrees(seq![], default) == default,
        agrees("y"@, default),
        agrees("yes"@, default),
        lowered.len() > 0 && lowered != "y"@ && lowered != "yes"@ ==> !agrees(lowered, default),
{
    reveal_strlit("y");
    reveal_strlit("yes");
}

/// An answer counts as it is once trimmed and in lower case: one that is blank means
/// the default, any other agrees exactly if it comes to `y` or `yes`.
pub proof fn law_answers_are_trimmed(answer: Text, default: bool)
    ensures
        lowercase(trimmed(answer)).len() == 0 ==> confirms(answer, default) == default,
        lowercase(trimmed(answer)).len() > 0 ==> (confirms(answer, default) <==> lowercase(
            trimmed(answer),
        ) == "y"@ || lowercase(trimmed(answer)) == "yes"@),
        confirms(trimmed(answer), default) == confirms(answer, default),
{
    law_trimmed(answer);
}

} // verus!
