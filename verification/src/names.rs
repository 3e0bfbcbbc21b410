//! Lists of names, as commands print them.
use crate::text::{
    law_lines_are_ended, law_trim_cuts_blanks, law_trimmed, lemma_first_line, lemma_span_bounds,
    lemma_texts_push, lemma_trimmed_push, line_chars, lines, on_one_line, span, split_lines, texts,
    trim, trimmed, without_return, Text,
};
use vstd::hash_set::StringHashSet;
use vstd::prelude::*;

verus! {

/// The names that are not in `taken`.
pub open spec fn outside(taken: Seq<Text>) -> spec_fn(Text) -> bool {
    |name: Text| !taken.contains(name)
}

/// `all` without the names in `taken`, in the order of `all`.
pub open spec fn without(all: Seq<Text>, taken: Seq<Text>) -> Seq<Text> {
    all.filter(outside(taken))
}

/// The names in `kept`.
pub open spec fn inside(kept: Seq<Text>) -> spec_fn(Text) -> bool {
    |name: Text| kept.contains(name)
}

/// The texts with something in them.
pub open spec fn not_empty() -> spec_fn(Text) -> bool {
    |name: Text| name.len() > 0
}

/// The lines of `raw`, each trimmed, without the empty ones.
pub open spec fn listed(raw: Text) -> Seq<Text> {
    lines(raw).map_values(|line: Text| trimmed(line)).filter(not_empty())
}

/// The names of `all` in the order in which each comes first.
pub open spec fn distinct(all: Seq<Text>) -> Seq<Text>
    decreases all.len(),
{
    if all.len() == 0 {
        all
    } else {
        let earlier = distinct(all.drop_last());
        if earlier.contains(all.last()) {
            earlier
        } else {
            earlier.push(all.last())
        }
    }
}

/// One more element in front of the end adds at most itself to what is kept.
pub proof fn lemma_filter_take<A>(s: Seq<A>, keep: spec_fn(A) -> bool, i: int)
    requires
        0 <= i < s.len(),
    ensures
        s.take(i + 1).filter(keep) == if keep(s[i]) {
            s.take(i).filter(keep).push(s[i])
        } else {
            s.take(i).filter(keep)
        },
{
    reveal(Seq::filter);
    assert(s.take(i + 1).drop_last() =~= s.take(i));
}

/// What `filter` keeps: the elements of the sequence that are wanted.
pub proof fn lemma_filter_contains<A>(s: Seq<A>, keep: spec_fn(A) -> bool, a: A)
    ensures
        s.filter(keep).contains(a) <==> s.contains(a) && keep(a),
    decreases s.len(),
{
    reveal(Seq::filter);
    if s.len() > 0 {
        let shorter = s.drop_last();
        lemma_filter_contains(shorter, keep, a);
        assert(s =~= shorter.push(s.last()));
        assert(s.contains(a) <==> shorter.contains(a) || a == s.last()) by {
            if shorter.contains(a) {
                let k = choose|k: int| 0 <= k < shorter.len() && shorter[k] == a;
                assert(s[k] == a);
            }
            if s.contains(a) {
                let k = choose|k: int| 0 <= k < s.len() && s[k] == a;
                if k < shorter.len() {
                    assert(shorter[k] == a);
                }
            }
            assert(s[s.len() - 1] == s.last());
        }
        if keep(s.last()) {
            let rest = shorter.filter(keep);
            assert(rest.push(s.last()).contains(a) <==> rest.contains(a) || a == s.last()) by {
                if rest.contains(a) {
                    let k = choose|k: int| 0 <= k < rest.len() && rest[k] == a;
                    assert(rest.push(s.last())[k] == a);
                }
                assert(rest.push(s.last())[rest.len() as int] == s.last());
            }
        }
    }
}

/// `distinct` loses no name, adds none, and repeats none.
pub proof fn lemma_distinct(all: Seq<Text>)
    ensures
        distinct(all).no_duplicates(),
        forall|name: Text| #[trigger] distinct(all).contains(name) <==> all.contains(name),
    decreases all.len(),
{
    if all.len() > 0 {
        let shorter = all.drop_last();
        lemma_distinct(shorter);
        let earlier = distinct(shorter);
        assert forall|name: Text| #[trigger]
            distinct(all).contains(name) <==> all.contains(name) by {
            assert(all =~= shorter.push(all.last()));
            if shorter.contains(name) {
                let k = choose|k: int| 0 <= k < shorter.len() && shorter[k] == name;
                assert(all[k] == name);
            }
            assert(all[all.len() - 1] == all.last());
            if earlier.contains(name) {
                let k = choose|k: int| 0 <= k < earlier.len() && earlier[k] == name;
                assert(earlier.push(all.last())[k] == name);
            }
            assert(earlier.push(all.last())[earlier.len() as int] == all.last());
            assert(earlier.contains(name) <==> shorter.contains(name));
            assert(earlier.contains(all.last()) <==> shorter.contains(all.last()));
            if all.contains(name) {
                let k = choose|k: int| 0 <= k < all.len() && all[k] == name;
                if k < shorter.len() {
                    assert(shorter[k] == name);
                }
            }
        }
    }
}

/// The names of a list, for lookup.
pub fn name_set(list: &[String]) -> (found: StringHashSet)
    ensures
        forall|name: Text| #[trigger] found@.contains(name) <==> texts(list@).contains(name),
{
    let mut found = StringHashSet::new();
    let mut i: usize = 0;
    while i < list.len()
        invariant
            i <= list@.len(),
            forall|name: Text| #[trigger]
                found@.contains(name) <==> texts(list@).take(i as int).contains(name),
        decreases list@.len() - i,
    {
        found.insert(list[i].clone());
        proof {
            let earlier = texts(list@).take(i as int);
            let later = texts(list@).take(i + 1);
            assert(later =~= earlier.push(list@[i as int]@));
            assert forall|name: Text| #[trigger]
                found@.contains(name) <==> later.contains(name) by {
                if earlier.contains(name) {
                    let k = choose|k: int| 0 <= k < earlier.len() && earlier[k] == name;
                    assert(later[k] == name);
                }
                assert(later[i as int] == list@[i as int]@);
                if later.contains(name) {
                    let k = choose|k: int| 0 <= k < later.len() && later[k] == name;
                    if k < i {
                        assert(earlier[k] == name);
                    }
                }
            }
        }
        i = i + 1;
    }
    proof {
        assert(texts(list@).take(i as int) =~= texts(list@));
    }
    found
}

/// Is `name` in the list?
pub fn has_name(list: &[String], name: &String) -> (yes: bool)
    ensures
        yes == texts(list@).contains(name@),
{
    let mut i: usize = 0;
    while i < list.len()
        invariant
            i <= list@.len(),
            forall|j: int| 0 <= j < i ==> (#[trigger] texts(list@)[j]) != name@,
        decreases list@.len() - i,
    {
        if list[i] == *name {
            proof {
                assert(texts(list@)[i as int] == name@);
            }
            return true;
        }
        i = i + 1;
    }
    false
}

/// A list with the same names.
pub fn copy_names(list: &[String]) -> (copy: Vec<String>)
    ensures
        texts(copy@) == texts(list@),
{
    let mut copy: Vec<String> = Vec::new();
    let mut i: usize = 0;
    while i < list.len()
        invariant
            i <= list@.len(),
            copy@ == list@.take(i as int),
        decreases list@.len() - i,
    {
        copy.push(list[i].clone());
        i = i + 1;
    }
    proof {
        assert(list@.take(i as int) =~= list@);
    }
    copy
}

/// The trimmed lines of a command's output, without blank ones.
pub fn lines_to_vec(raw: &str) -> (found: Vec<String>)
    ensures
        texts(found@) == listed(raw@),
{
    let all = split_lines(raw);
    let ghost cut = lines(raw@).map_values(|line: Text| trimmed(line));
    let mut found: Vec<String> = Vec::new();
    let mut i: usize = 0;
    proof {
        reveal(Seq::filter);
        assert(texts(found@) =~= cut.take(0).filter(not_empty()));
    }
    while i < all.len()
        invariant
            i <= all@.len(),
            texts(all@) == lines(raw@),
            cut == lines(raw@).map_values(|line: Text| trimmed(line)),
            texts(found@) == cut.take(i as int).filter(not_empty()),
        decreases all@.len() - i,
    {
        let line = trim(all[i].as_str());
        proof {
            assert(texts(all@)[i as int] == all@[i as int]@);
            lemma_filter_take(cut, not_empty(), i as int);
            lemma_texts_push(found@, line);
        }
        if !line.as_str().is_empty() {
            found.push(line);
        }
        i = i + 1;
    }
    proof {
        assert(cut.take(i as int) =~= cut);
    }
    found
}

/// The names of `a` that are not in `b`.
pub fn subtract(a: &[String], b: &[String]) -> (rest: Vec<String>)
    ensures
        texts(rest@) == without(texts(a@), texts(b@)),
{
    let taken = name_set(b);
    let ghost keep = outside(texts(b@));
    let mut rest: Vec<String> = Vec::new();
    let mut i: usize = 0;
    proof {
        reveal(Seq::filter);
        assert(texts(rest@) =~= texts(a@).take(0).filter(keep));
    }
    while i < a.len()
        invariant
            i <= a@.len(),
            keep == outside(texts(b@)),
            forall|name: Text| #[trigger] taken@.contains(name) <==> texts(b@).contains(name),
            texts(rest@) == texts(a@).take(i as int).filter(keep),
        decreases a@.len() - i,
    {
        proof {
            lemma_filter_take(texts(a@), keep, i as int);
            lemma_texts_push(rest@, a@[i as int]);
        }
        if !taken.contains(a[i].as_str()) {
            rest.push(a[i].clone());
        }
        i = i + 1;
    }
    proof {
        assert(texts(a@).take(i as int) =~= texts(a@));
    }
    rest
}

/// The names of a list, each where it comes first.
pub fn dedup(list: &[String]) -> (once: Vec<String>)
    ensures
        texts(once@) == distinct(texts(list@)),
{
    let mut once: Vec<String> = Vec::new();
    let mut seen = StringHashSet::new();
    let mut i: usize = 0;
    proof {
        assert(texts(once@) =~= distinct(texts(list@).take(0)));
    }
    while i < list.len()
        invariant
            i <= list@.len(),
            texts(once@) == distinct(texts(list@).take(i as int)),
            forall|name: Text| #[trigger] seen@.contains(name) <==> texts(once@).contains(name),
        decreases list@.len() - i,
    {
        let ghost before = texts(once@);
        let ghost name = list@[i as int]@;
        proof {
            assert(texts(list@).take(i + 1).drop_last() =~= texts(list@).take(i as int));
            lemma_texts_push(once@, list@[i as int]);
        }
        if !seen.contains(list[i].as_str()) {
            once.push(list[i].clone());
            seen.insert(list[i].clone());
            proof {
                assert forall|other: Text| #[trigger]
                    seen@.contains(other) <==> texts(once@).contains(other) by {
                    if before.contains(other) {
                        let k = choose|k: int| 0 <= k < before.len() && before[k] == other;
                        assert(before.push(name)[k] == other);
                    }
                    assert(before.push(name)[before.len() as int] == name);
                }
            }
        }
        i = i + 1;
    }
    proof {
        assert(texts(list@).take(i as int) =~= texts(list@));
    }
    once
}

/// A list of names has no blank one, and each is trimmed.
pub proof fn law_listed_names_are_clean(raw: Text, name: Text)
    requires
        listed(raw).contains(name),
    ensures
        name.len() > 0,
        trimmed(name) == name,
{
    let cut = lines(raw).map_values(|line: Text| trimmed(line));
    lemma_filter_contains(cut, not_empty(), name);
    let k = choose|k: int| 0 <= k < cut.len() && cut[k] == name;
    law_trimmed(lines(raw)[k]);
}

/// Taking names away takes away exactly those.
pub proof fn law_subtract(all: Seq<Text>, taken: Seq<Text>, name: Text)
    ensures
        without(all, taken).contains(name) <==> all.contains(name) && !taken.contains(name),
{
    lemma_filter_contains(all, outside(taken), name);
}

/// Taking names away goes through the list name by name: one that is in the way
/// is left out, any other stays in its place.
pub proof fn law_subtract_keeps_the_rest(all: Seq<Text>, taken: Seq<Text>, name: Text)
    ensures
        without(seq![], taken) == Seq::<Text>::empty(),
        taken.contains(name) ==> without(all.push(name), taken) == without(all, taken),
        !taken.contains(name) ==> without(all.push(name), taken) == without(all, taken).push(name),
{
    reveal(Seq::filter);
    assert(all.push(name).drop_last() =~= all);
}

/// Dropping repetitions goes through the list name by name: one that came before
/// is left out, any other stays in its place.
pub proof fn law_distinct_keeps_the_first(all: Seq<Text>, name: Text)
    ensures
        distinct(seq![]) == Seq::<Text>::empty(),
        all.contains(name) ==> distinct(all.push(name)) == distinct(all),
        !all.contains(name) ==> distinct(all.push(name)) == distinct(all).push(name),
{
    assert(all.push(name).drop_last() =~= all);
    lemma_distinct(all);
    assert(distinct(all).contains(name) <==> all.contains(name));
}

/// What a single line lists: itself, trimmed, if there is anything left of it.
pub proof fn law_a_line_lists_a_name(line: Text)
    requires
        on_one_line(line),
    ensures
        trimmed(line).len() > 0 ==> listed(line) == seq![trimmed(line)],
        trimmed(line).len() == 0 ==> listed(line) == Seq::<Text>::empty(),
{
    reveal(Seq::filter);
    law_lines_are_ended(line, seq![]);
    let cut = lines(line).map_values(|line: Text| trimmed(line));
    if line.len() > 0 {
        assert(cut =~= seq![trimmed(line)]);
        assert(cut.drop_last() =~= seq![]);
        lemma_one_listed(trimmed(line));
    } else {
        law_trim_cuts_blanks(seq![], seq![], seq![]);
        assert(line =~= seq![]);
        assert(seq![] + line + seq![] =~= line);
        assert(cut =~= seq![]);
        assert(cut.filter(not_empty()) =~= seq![]);
    }
}

proof fn lemma_one_listed(name: Text)
    ensures
        seq![name].filter(not_empty()) == if name.len() > 0 {
            seq![name]
        } else {
            seq![]
        },
{
    reveal(Seq::filter);
    assert(seq![name].drop_last() =~= seq![]);
    assert(seq![name].drop_last().filter(not_empty()) =~= seq![]);
    assert(seq![name].last() == name);
    assert(Seq::<Text>::empty().push(name) =~= seq![name]);
}

/// A line feed parts what is listed before it from what is listed after it.
pub proof fn law_names_are_listed_by_line(a: Text, b: Text)
    ensures
        listed(a.push('\n') + b) == listed(a) + listed(b),
    decreases a.len(),
{
    let all = a.push('\n') + b;
    if a.contains('\n') {
        let n = span(a, line_chars()) as int;
        lemma_span_bounds(a, line_chars());
        let first = a.take(n);
        let rest = a.skip(n + 1);
        assert(n < a.len()) by {
            let k = choose|k: int| 0 <= k < a.len() && a[k] == '\n';
            if n >= a.len() {
                assert(line_chars()(a[k]));
            }
        }
        assert(on_one_line(first)) by {
            if first.contains('\n') {
                let k = choose|k: int| 0 <= k < first.len() && first[k] == '\n';
                assert(line_chars()(a[k]));
            }
        }
        assert(a =~= first.push('\n') + rest);
        assert(all =~= first.push('\n') + (rest.push('\n') + b));
        lemma_listed_first(first, rest);
        lemma_listed_first(first, rest.push('\n') + b);
        law_names_are_listed_by_line(rest, b);
        assert(seq![trimmed(first)].filter(not_empty()) + (listed(rest) + listed(b)) =~= (
        seq![trimmed(first)].filter(not_empty()) + listed(rest)) + listed(b));
    } else {
        lemma_listed_first(a, b);
        law_a_line_lists_a_name(a);
        lemma_one_listed(trimmed(a));
    }
}

proof fn lemma_listed_first(line: Text, rest: Text)
    requires
        on_one_line(line),
    ensures
        listed(line.push('\n') + rest) == seq![trimmed(line)].filter(not_empty()) + listed(rest),
{
    let cut = |line: Text| trimmed(line);
    let short = without_return(line);
    lemma_first_line(line, rest);
    if line.len() > 0 && line.last() == '\r' {
        assert(line =~= short.push('\r'));
        lemma_trimmed_push(short, '\r');
    }
    assert((seq![short] + lines(rest)).map_values(cut) =~= seq![trimmed(line)] + lines(
        rest,
    ).map_values(cut));
    Seq::filter_distributes_over_add(
        seq![trimmed(line)],
        lines(rest).map_values(cut),
        not_empty(),
    );
}

} // verus!
