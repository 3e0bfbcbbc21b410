//! Plain text: the pieces that command output is cut into.
//!
//! A text is modelled as the sequence of its characters.
use vstd::prelude::*;

verus! {

/// The model of a string.
pub type Text = Seq<char>;

/// The models of a list of strings.
pub open spec fn texts(list: Seq<String>) -> Seq<Text> {
    list.map_values(|s: String| s@)
}

/// The characters with the Unicode property `White_Space`.
pub open spec fn is_blank(c: char) -> bool {
    let n = c as u32;
    ||| 0x09 <= n <= 0x0d
    ||| n == 0x20
    ||| n == 0x85
    ||| n == 0xa0
    ||| n == 0x1680
    ||| 0x2000 <= n <= 0x200a
    ||| n == 0x2028
    ||| n == 0x2029
    ||| n == 0x202f
    ||| n == 0x205f
    ||| n == 0x3000
}

/// The length of the longest run of characters in `keep` at the start of `s`.
pub open spec fn span(s: Text, keep: spec_fn(char) -> bool) -> nat
    decreases s.len(),
{
    if s.len() > 0 && keep(s[0]) {
        1 + span(s.skip(1), keep)
    } else {
        0
    }
}

/// The blank characters.
pub open spec fn blanks() -> spec_fn(char) -> bool {
    |c: char| is_blank(c)
}

/// The characters that words are made of.
pub open spec fn word_chars() -> spec_fn(char) -> bool {
    |c: char| !is_blank(c)
}

/// The characters that a line is made of.
pub open spec fn line_chars() -> spec_fn(char) -> bool {
    |c: char| c != '\n'
}

/// `s` without the blanks that it ends in.
pub open spec fn trim_end(s: Text) -> Text
    decreases s.len(),
{
    if s.len() > 0 && is_blank(s.last()) {
        trim_end(s.drop_last())
    } else {
        s
    }
}

/// `s` without the blanks that it starts with and ends in.
pub open spec fn trimmed(s: Text) -> Text {
    trim_end(s.skip(span(s, blanks()) as int))
}

/// The words of `s`: its longest runs of characters that are not blank.
pub open spec fn words(s: Text) -> Seq<Text>
    decreases s.len(),
{
    if s.len() == 0 {
        seq![]
    } else if is_blank(s[0]) {
        words(s.skip(1))
    } else {
        let n = span(s, word_chars());
        if 0 < n <= s.len() {
            seq![s.take(n as int)] + words(s.skip(n as int))
        } else {
            seq![]
        }
    }
}

/// A line without the carriage return before its line feed.
pub open spec fn without_return(s: Text) -> Text {
    if s.len() > 0 && s.last() == '\r' {
        s.drop_last()
    } else {
        s
    }
}

/// The lines of `s`. A line feed, or a carriage return and a line feed, ends a
/// line; the last line needs no ending.
pub open spec fn lines(s: Text) -> Seq<Text>
    decreases s.len(),
{
    if s.len() == 0 {
        seq![]
    } else {
        let n = span(s, line_chars());
        if n < s.len() {
            seq![without_return(s.take(n as int))] + lines(s.skip(n as int + 1))
        } else {
            seq![s]
        }
    }
}

/// `mark` stands in `s` at position `i`.
pub open spec fn occurs_at(s: Text, mark: Text, i: int) -> bool {
    0 <= i && i + mark.len() <= s.len() && s.subrange(i, i + mark.len()) == mark
}

/// `i` is the first position at which `mark` stands in `s`.
pub open spec fn first_at(s: Text, mark: Text, i: int) -> bool {
    occurs_at(s, mark, i) && forall|j: int| 0 <= j < i ==> !occurs_at(s, mark, j)
}

/// What stands before and after the first `mark` in `s`.
pub open spec fn split_at_first(s: Text, mark: Text) -> Option<(Text, Text)> {
    if exists|i: int| first_at(s, mark, i) {
        let i = choose|i: int| first_at(s, mark, i);
        Some((s.take(i), s.skip(i + mark.len())))
    } else {
        None
    }
}

/// The run that `span` measures is where `keep` first fails.
pub proof fn lemma_span(s: Text, keep: spec_fn(char) -> bool, n: int)
    requires
        0 <= n <= s.len(),
        forall|j: int| 0 <= j < n ==> keep(#[trigger] s[j]),
        n < s.len() ==> !keep(s[n]),
    ensures
        span(s, keep) == n,
    decreases n,
{
    if n > 0 {
        let rest = s.skip(1);
        assert(keep(s[0]));
        assert forall|j: int| 0 <= j < n - 1 implies keep(#[trigger] rest[j]) by {
            assert(rest[j] == s[j + 1]);
        }
        lemma_span(rest, keep, n - 1);
    }
}

proof fn lemma_trim_end(s: Text, n: int)
    requires
        0 <= n <= s.len(),
        forall|j: int| n <= j < s.len() ==> is_blank(#[trigger] s[j]),
        n > 0 ==> !is_blank(s[n - 1]),
    ensures
        trim_end(s) == s.take(n),
    decreases s.len() - n,
{
    if n < s.len() {
        assert(is_blank(s[s.len() - 1]));
        let shorter = s.drop_last();
        assert forall|j: int| n <= j < shorter.len() implies is_blank(#[trigger] shorter[j]) by {
            assert(shorter[j] == s[j]);
        }
        lemma_trim_end(shorter, n);
        assert(shorter.take(n) =~= s.take(n));
    } else {
        assert(s.take(n) =~= s);
    }
}

/// The first position is unique.
pub proof fn lemma_first_at_unique(s: Text, mark: Text, i: int, j: int)
    requires
        first_at(s, mark, i),
        first_at(s, mark, j),
    ensures
        i == j,
{
}

/// Adding a string to a list adds its model to the models.
pub proof fn lemma_texts_push(list: Seq<String>, s: String)
    ensures
        texts(list.push(s)) == texts(list).push(s@),
{
    assert(texts(list.push(s)) =~= texts(list).push(s@));
}

/// Appends one character.
///
/// `String::push`: "Appends the given `char` to the end of this `String`."
pub assume_specification[ String::push ](s: &mut String, c: char)
    ensures
        final(s)@ == old(s)@.push(c),
;

/// Is `c` white space?
pub fn blank(c: char) -> (yes: bool)
    ensures
        yes == is_blank(c),
{
    let n: u32 = c as u32;
    (0x09 <= n && n <= 0x0d) || n == 0x20 || n == 0x85 || n == 0xa0 || n == 0x1680 || (0x2000 <= n
        && n <= 0x200a) || n == 0x2028 || n == 0x2029 || n == 0x202f || n == 0x205f || n == 0x3000
}

/// The characters of a string.
pub fn chars_of(text: &str) -> (chars: Vec<char>)
    ensures
        chars@ == text@,
{
    let mut chars: Vec<char> = Vec::new();
    for c in it: text.chars()
        invariant
            it.seq() == text@,
            chars@ == it.seq().take(it.index()),
    {
        chars.push(c);
    }
    chars
}

/// The string of the characters from `from` to before `to`.
pub fn string_of(chars: &Vec<char>, from: usize, to: usize) -> (text: String)
    requires
        from <= to <= chars@.len(),
    ensures
        text@ == chars@.subrange(from as int, to as int),
{
    let mut text = String::new();
    let mut i: usize = from;
    while i < to
        invariant
            from <= i <= to <= chars@.len(),
            text@ == chars@.subrange(from as int, i as int),
        decreases to - i,
    {
        text.push(chars[i]);
        i = i + 1;
        assert(chars@.subrange(from as int, i as int) =~= chars@.subrange(
            from as int,
            i - 1,
        ).push(chars@[i - 1]));
    }
    text
}

/// Cuts the blanks off both ends.
pub fn trim(text: &str) -> (cut: String)
    ensures
        cut@ == trimmed(text@),
{
    let chars = chars_of(text);
    let mut from: usize = 0;
    while from < chars.len() && blank(chars[from])
        invariant
            from <= chars@.len(),
            forall|j: int| 0 <= j < from ==> is_blank(#[trigger] chars@[j]),
        decreases chars@.len() - from,
    {
        from = from + 1;
    }
    proof {
        lemma_span(chars@, blanks(), from as int);
    }
    let mut to: usize = chars.len();
    while from < to && blank(chars[to - 1])
        invariant
            from <= to <= chars@.len(),
            forall|j: int| to <= j < chars@.len() ==> is_blank(#[trigger] chars@[j]),
        decreases to,
    {
        to = to - 1;
    }
    proof {
        let rest = chars@.skip(from as int);
        assert forall|j: int| to - from <= j < rest.len() implies is_blank(#[trigger] rest[j]) by {
            assert(rest[j] == chars@[j + from]);
        }
        lemma_trim_end(rest, to - from);
        assert(rest.take(to - from) =~= chars@.subrange(from as int, to as int));
    }
    string_of(&chars, from, to)
}

/// Splits at white space, and drops it.
pub fn split_words(text: &str) -> (found: Vec<String>)
    ensures
        texts(found@) == words(text@),
{
    let chars = chars_of(text);
    let mut found: Vec<String> = Vec::new();
    let mut i: usize = 0;
    proof {
        assert(chars@.skip(0) =~= chars@);
        assert(texts(found@) + words(chars@.skip(0)) =~= words(chars@));
    }
    while i < chars.len()
        invariant
            i <= chars@.len(),
            chars@ == text@,
            texts(found@) + words(chars@.skip(i as int)) == words(text@),
        decreases chars@.len() - i,
    {
        let ghost rest = chars@.skip(i as int);
        let ghost before = found@;
        if blank(chars[i]) {
            i = i + 1;
            proof {
                assert(rest.skip(1) =~= chars@.skip(i as int));
            }
        } else {
            let start: usize = i;
            i = i + 1;
            while i < chars.len() && !blank(chars[i])
                invariant
                    start < i <= chars@.len(),
                    forall|j: int| start <= j < i ==> !is_blank(#[trigger] chars@[j]),
                decreases chars@.len() - i,
            {
                i = i + 1;
            }
            found.push(string_of(&chars, start, i));
            proof {
                let n = i - start;
                assert forall|j: int| 0 <= j < n implies word_chars()(#[trigger] rest[j]) by {
                    assert(rest[j] == chars@[j + start]);
                }
                lemma_span(rest, word_chars(), n);
                lemma_texts_push(before, found@.last());
                assert(rest.take(n) =~= chars@.subrange(start as int, i as int));
                assert(rest.skip(n) =~= chars@.skip(i as int));
                assert(texts(before).push(rest.take(n)) + words(rest.skip(n)) =~= texts(before) + (
                seq![rest.take(n)] + words(rest.skip(n))));
            }
        }
    }
    proof {
        assert(chars@.skip(i as int).len() == 0);
        assert(texts(found@) + words(chars@.skip(i as int)) =~= texts(found@));
    }
    found
}

/// Splits into lines, without their endings.
pub fn split_lines(text: &str) -> (found: Vec<String>)
    ensures
        texts(found@) == lines(text@),
{
    let chars = chars_of(text);
    let mut found: Vec<String> = Vec::new();
    let mut i: usize = 0;
    proof {
        assert(chars@.skip(0) =~= chars@);
        assert(texts(found@) + lines(chars@.skip(0)) =~= lines(chars@));
    }
    while i < chars.len()
        invariant
            i <= chars@.len(),
            chars@ == text@,
            texts(found@) + lines(chars@.skip(i as int)) == lines(text@),
        decreases chars@.len() - i,
    {
        let ghost rest = chars@.skip(i as int);
        let ghost before = found@;
        let start: usize = i;
        while i < chars.len() && chars[i] != '\n'
            invariant
                start <= i <= chars@.len(),
                forall|j: int| start <= j < i ==> #[trigger] chars@[j] != '\n',
            decreases chars@.len() - i,
        {
            i = i + 1;
        }
        let ghost n = i - start;
        proof {
            assert forall|j: int| 0 <= j < n implies line_chars()(#[trigger] rest[j]) by {
                assert(rest[j] == chars@[j + start]);
            }
            lemma_span(rest, line_chars(), n);
            assert(rest.take(n) =~= chars@.subrange(start as int, i as int));
        }
        if i < chars.len() {
            let end: usize = if start < i && chars[i - 1] == '\r' {
                i - 1
            } else {
                i
            };
            found.push(string_of(&chars, start, end));
            i = i + 1;
            proof {
                lemma_texts_push(before, found@.last());
                assert(chars@.subrange(start as int, end as int) =~= without_return(rest.take(n)));
                assert(rest.skip(n + 1) =~= chars@.skip(i as int));
                assert(texts(before).push(without_return(rest.take(n))) + lines(rest.skip(n + 1))
                    =~= texts(before) + (seq![without_return(rest.take(n))] + lines(
                    rest.skip(n + 1),
                )));
            }
        } else {
            found.push(string_of(&chars, start, i));
            proof {
                lemma_texts_push(before, found@.last());
                assert(rest.take(n) =~= rest);
                assert(chars@.skip(i as int).len() == 0);
                assert(texts(before).push(rest) + lines(chars@.skip(i as int)) =~= texts(before)
                    + seq![rest]);
            }
        }
    }
    proof {
        assert(chars@.skip(i as int).len() == 0);
        assert(texts(found@) + lines(chars@.skip(i as int)) =~= texts(found@));
    }
    found
}

/// Does `mark` stand in `chars` at position `i`?
fn stands_at(chars: &Vec<char>, mark: &Vec<char>, i: usize) -> (yes: bool)
    requires
        i <= chars@.len(),
    ensures
        yes == occurs_at(chars@, mark@, i as int),
{
    let count: usize = chars.len();
    if mark.len() > count - i {
        return false;
    }
    let mut k: usize = 0;
    while k < mark.len()
        invariant
            k <= mark@.len(),
            count == chars@.len(),
            i + mark@.len() <= count,
            forall|j: int| 0 <= j < k ==> chars@[i + j] == #[trigger] mark@[j],
        decreases mark@.len() - k,
    {
        if chars[i + k] != mark[k] {
            proof {
                assert(chars@.subrange(i as int, i + mark@.len())[k as int] != mark@[k as int]);
            }
            return false;
        }
        k = k + 1;
    }
    proof {
        assert(chars@.subrange(i as int, i + mark@.len()) =~= mark@);
    }
    true
}

/// Splits at the first `mark`, which belongs to neither half.
pub fn split_once(text: &str, mark: &str) -> (halves: Option<(String, String)>)
    ensures
        match halves {
            Some((head, tail)) => split_at_first(text@, mark@) == Some((head@, tail@)),
            None => split_at_first(text@, mark@) is None,
        },
{
    let chars = chars_of(text);
    let marks = chars_of(mark);
    let count: usize = chars.len();
    let mut i: usize = 0;
    loop
        invariant
            count == chars@.len(),
            i <= count,
            chars@ == text@,
            marks@ == mark@,
            forall|j: int| 0 <= j < i ==> !occurs_at(text@, mark@, j),
        decreases chars@.len() - i,
    {
        if stands_at(&chars, &marks, i) {
            let head = string_of(&chars, 0, i);
            let tail = string_of(&chars, i + marks.len(), count);
            proof {
                assert(first_at(text@, mark@, i as int));
                let first = choose|k: int| first_at(text@, mark@, k);
                lemma_first_at_unique(text@, mark@, i as int, first);
                assert(head@ =~= text@.take(i as int));
                assert(tail@ =~= text@.skip(i + mark@.len()));
            }
            return Some((head, tail));
        }
        if i == count {
            return None;
        }
        i = i + 1;
    }
}

/// Does `text` start with `start`?
pub fn starts_with(text: &str, start: &str) -> (yes: bool)
    ensures
        yes == start@.is_prefix_of(text@),
{
    let chars = chars_of(text);
    let mark = chars_of(start);
    stands_at(&chars, &mark, 0)
}

/// `span` counts characters of the text, all of them in `keep`, up to the first
/// that is not.
pub proof fn lemma_span_bounds(s: Text, keep: spec_fn(char) -> bool)
    ensures
        span(s, keep) <= s.len(),
        forall|j: int| 0 <= j < span(s, keep) ==> keep(#[trigger] s[j]),
        span(s, keep) < s.len() ==> !keep(s[span(s, keep) as int]),
    decreases s.len(),
{
    if s.len() > 0 && keep(s[0]) {
        let rest = s.skip(1);
        lemma_span_bounds(rest, keep);
        assert forall|j: int| 0 <= j < span(s, keep) implies keep(#[trigger] s[j]) by {
            if j > 0 {
                assert(rest[j - 1] == s[j]);
            }
        }
    }
}

proof fn lemma_trim_end_bounds(s: Text)
    ensures
        trim_end(s).len() <= s.len(),
        trim_end(s) == s.take(trim_end(s).len() as int),
        trim_end(s).len() > 0 ==> !is_blank(trim_end(s).last()),
        forall|j: int| trim_end(s).len() <= j < s.len() ==> is_blank(#[trigger] s[j]),
    decreases s.len(),
{
    if s.len() > 0 && is_blank(s.last()) {
        let shorter = s.drop_last();
        lemma_trim_end_bounds(shorter);
        assert(shorter.take(trim_end(s).len() as int) =~= s.take(trim_end(s).len() as int));
        assert forall|j: int| trim_end(s).len() <= j < s.len() implies is_blank(#[trigger] s[j]) by {
            if j < shorter.len() {
                assert(shorter[j] == s[j]);
            }
        }
    } else {
        assert(s.take(s.len() as int) =~= s);
    }
}

/// A trimmed text neither starts with a blank nor ends in one, and stays as it
/// is when it is trimmed again.
pub proof fn law_trimmed(s: Text)
    ensures
        trimmed(s).len() > 0 ==> !is_blank(trimmed(s)[0]) && !is_blank(trimmed(s).last()),
        trimmed(trimmed(s)) == trimmed(s),
{
    lemma_span_bounds(s, blanks());
    let rest = s.skip(span(s, blanks()) as int);
    lemma_trim_end_bounds(rest);
    let cut = trimmed(s);
    if cut.len() > 0 {
        assert(cut[0] == rest[0]);
        assert(rest[0] == s[span(s, blanks()) as int]);
        lemma_span(cut, blanks(), 0);
        lemma_trim_end(cut, cut.len() as int);
        assert(cut.take(cut.len() as int) =~= cut);
    }
    assert(cut.skip(0) =~= cut);
}

/// A text that is not empty and holds no blank.
pub open spec fn is_word(s: Text) -> bool {
    s.len() > 0 && forall|j: int| 0 <= j < s.len() ==> !is_blank(#[trigger] s[j])
}

/// Words are not empty, and hold no blanks.
pub proof fn law_words(s: Text)
    ensures
        forall|i: int| 0 <= i < words(s).len() ==> is_word(#[trigger] words(s)[i]),
    decreases s.len(),
{
    if s.len() > 0 {
        if is_blank(s[0]) {
            law_words(s.skip(1));
            assert(words(s) == words(s.skip(1)));
        } else {
            let n = span(s, word_chars()) as int;
            lemma_span_bounds(s, word_chars());
            assert(word_chars()(s[0]));
            let rest = words(s.skip(n));
            law_words(s.skip(n));
            assert forall|i: int| 0 <= i < words(s).len() implies is_word(
                #[trigger] words(s)[i],
            ) by {
                if i == 0 {
                    assert forall|j: int| 0 <= j < n implies !is_blank(#[trigger] s.take(n)[j]) by {
                        assert(word_chars()(s[j]));
                    }
                } else {
                    assert(words(s)[i] == rest[i - 1]);
                }
            }
        }
    }
}

/// Lines hold no line feeds.
pub proof fn law_lines(s: Text)
    ensures
        forall|i: int, j: int|
            0 <= i < lines(s).len() && 0 <= j < lines(s)[i].len() ==> #[trigger] lines(s)[i][j]
                != '\n',
    decreases s.len(),
{
    if s.len() > 0 {
        let n = span(s, line_chars()) as int;
        lemma_span_bounds(s, line_chars());
        if n < s.len() {
            let rest = lines(s.skip(n + 1));
            law_lines(s.skip(n + 1));
            assert forall|i: int, j: int|
                0 <= i < lines(s).len() && 0 <= j < lines(s)[i].len() implies #[trigger] lines(
                s,
            )[i][j] != '\n' by {
                if i == 0 {
                    assert(line_chars()(s[j]));
                } else {
                    assert(lines(s)[i] == rest[i - 1]);
                }
            }
        } else {
            assert forall|i: int, j: int|
                0 <= i < lines(s).len() && 0 <= j < lines(s)[i].len() implies #[trigger] lines(
                s,
            )[i][j] != '\n' by {
                assert(line_chars()(s[j]));
            }
        }
    }
}

/// The model of a list holds the model of each string, in its place.
pub proof fn law_texts(list: Seq<String>)
    ensures
        texts(list).len() == list.len(),
        forall|i: int| 0 <= i < list.len() ==> #[trigger] texts(list)[i] == list[i]@,
{
}

/// The blank characters are these and no others.
pub proof fn law_blank(c: char)
    ensures
        is_blank(c) <==> set![
            0x09u32, 0x0a, 0x0b, 0x0c, 0x0d, 0x20, 0x85, 0xa0, 0x1680, 0x2000, 0x2001, 0x2002,
            0x2003, 0x2004, 0x2005, 0x2006, 0x2007, 0x2008, 0x2009, 0x200a, 0x2028, 0x2029, 0x202f,
            0x205f, 0x3000,
        ].contains(c as u32),
{
}

/// Every character of the text is blank.
pub open spec fn all_blank(s: Text) -> bool {
    forall|j: int| 0 <= j < s.len() ==> is_blank(#[trigger] s[j])
}

/// Trimming takes the blanks from both ends and nothing else: what is left of a
/// text between blanks is that text, if it neither starts nor ends with a blank.
pub proof fn law_trim_cuts_blanks(before: Text, s: Text, behind: Text)
    requires
        all_blank(before),
        all_blank(behind),
        s.len() > 0 ==> !is_blank(s[0]) && !is_blank(s.last()),
    ensures
        trimmed(before + s + behind) == s,
{
    let all = before + s + behind;
    if s.len() > 0 {
        assert forall|j: int| 0 <= j < before.len() implies blanks()(#[trigger] all[j]) by {
            assert(all[j] == before[j]);
        }
        assert(all[before.len() as int] == s[0]);
        lemma_span(all, blanks(), before.len() as int);
        let rest = all.skip(before.len() as int);
        assert(rest =~= s + behind);
        assert forall|j: int| s.len() <= j < rest.len() implies is_blank(#[trigger] rest[j]) by {
            assert(rest[j] == behind[j - s.len()]);
        }
        lemma_trim_end(rest, s.len() as int);
        assert(rest.take(s.len() as int) =~= s);
    } else {
        assert forall|j: int| 0 <= j < all.len() implies blanks()(#[trigger] all[j]) by {
            if j < before.len() {
                assert(all[j] == before[j]);
            } else {
                assert(all[j] == behind[j - before.len()]);
            }
        }
        lemma_span(all, blanks(), all.len() as int);
        assert(all.skip(all.len() as int) =~= s);
    }
}

/// Every text is its trimmed form between blanks.
pub proof fn lemma_trimmed_between(s: Text) -> (ends: (Text, Text))
    ensures
        all_blank(ends.0),
        all_blank(ends.1),
        s == ends.0 + trimmed(s) + ends.1,
{
    let n = span(s, blanks()) as int;
    lemma_span_bounds(s, blanks());
    let rest = s.skip(n);
    lemma_trim_end_bounds(rest);
    let m = trimmed(s).len() as int;
    let before = s.take(n);
    let behind = rest.skip(m);
    assert forall|j: int| 0 <= j < before.len() implies is_blank(#[trigger] before[j]) by {
        assert(blanks()(s[j]));
    }
    assert forall|j: int| 0 <= j < behind.len() implies is_blank(#[trigger] behind[j]) by {
        assert(rest[j + m] == behind[j]);
    }
    assert(s =~= before + trimmed(s) + behind);
    (before, behind)
}

/// A blank at the end makes no difference to the trimmed text.
pub proof fn lemma_trimmed_push(s: Text, c: char)
    requires
        is_blank(c),
    ensures
        trimmed(s.push(c)) == trimmed(s),
{
    let (before, behind) = lemma_trimmed_between(s);
    law_trimmed(s);
    assert(s.push(c) =~= before + trimmed(s) + behind.push(c));
    law_trim_cuts_blanks(before, trimmed(s), behind.push(c));
}

/// An empty text has no word; a word is its only word; a blank parts the words
/// before it from those after it.
pub proof fn law_words_are_parted_by_blanks(a: Text, c: char, b: Text)
    ensures
        words(seq![]) == Seq::<Text>::empty(),
        is_word(a) ==> words(a) == seq![a],
        is_blank(c) ==> words(a.push(c) + b) == words(a) + words(b),
{
    if is_word(a) {
        assert forall|j: int| 0 <= j < a.len() implies word_chars()(#[trigger] a[j]) by {}
        lemma_span(a, word_chars(), a.len() as int);
        assert(a.take(a.len() as int) =~= a);
        assert(!is_blank(a[0]));
        assert(words(a.skip(a.len() as int)) =~= seq![]);
        assert(words(a) =~= seq![a]);
    }
    if is_blank(c) {
        lemma_words_parted(a, c, b);
    }
}

proof fn lemma_words_parted(a: Text, c: char, b: Text)
    requires
        is_blank(c),
    ensures
        words(a.push(c) + b) == words(a) + words(b),
    decreases a.len(),
{
    let s = a.push(c) + b;
    if a.len() == 0 {
        assert(s[0] == c);
        assert(s.skip(1) =~= b);
        assert(words(a) + words(b) =~= words(b));
    } else if is_blank(a[0]) {
        assert(s[0] == a[0]);
        assert(s.skip(1) =~= a.skip(1).push(c) + b);
        lemma_words_parted(a.skip(1), c, b);
    } else {
        let n = span(a, word_chars()) as int;
        lemma_span_bounds(a, word_chars());
        assert(word_chars()(a[0]));
        assert(s[0] == a[0]);
        assert forall|j: int| 0 <= j < n implies word_chars()(#[trigger] s[j]) by {
            assert(s[j] == a[j]);
        }
        assert(s[n] == if n < a.len() {
            a[n]
        } else {
            c
        });
        lemma_span(s, word_chars(), n);
        assert(s.take(n) =~= a.take(n));
        assert(s.skip(n) =~= a.skip(n).push(c) + b);
        lemma_words_parted(a.skip(n), c, b);
        assert(seq![a.take(n)] + (words(a.skip(n)) + words(b)) =~= (seq![a.take(n)] + words(
            a.skip(n),
        )) + words(b));
    }
}

proof fn lemma_words_of_blanks(before: Text, s: Text, behind: Text)
    requires
        all_blank(before),
        all_blank(behind),
    ensures
        words(before + s + behind) == words(s),
    decreases before.len() + behind.len(),
{
    let all = before + s + behind;
    if before.len() > 0 {
        let rest = before.skip(1);
        assert(all[0] == before[0]);
        assert(is_blank(before[0]));
        assert(all.skip(1) =~= rest + s + behind);
        assert forall|j: int| 0 <= j < rest.len() implies is_blank(#[trigger] rest[j]) by {
            assert(rest[j] == before[j + 1]);
        }
        lemma_words_of_blanks(rest, s, behind);
    } else if behind.len() > 0 {
        let rest = behind.drop_last();
        assert forall|j: int| 0 <= j < rest.len() implies is_blank(#[trigger] rest[j]) by {
            assert(rest[j] == behind[j]);
        }
        assert(is_blank(behind.last()));
        lemma_words_of_blanks(before, s, rest);
        lemma_words_parted(before + s + rest, behind.last(), seq![]);
        assert((before + s + rest).push(behind.last()) + seq![] =~= all);
        assert(words(before + s + rest) + words(seq![]) =~= words(before + s + rest));
    } else {
        assert(all =~= s);
    }
}

/// Trimming loses no word.
pub proof fn law_trimming_keeps_words(s: Text)
    ensures
        words(trimmed(s)) == words(s),
{
    let (before, behind) = lemma_trimmed_between(s);
    lemma_words_of_blanks(before, trimmed(s), behind);
}

/// The text holds no line feed.
pub open spec fn on_one_line(s: Text) -> bool {
    !s.contains('\n')
}

/// A line feed ends a line, and so do a carriage return and a line feed; the last
/// line needs neither, and an empty text has no line.
pub proof fn law_lines_are_ended(line: Text, rest: Text)
    requires
        on_one_line(line),
    ensures
        lines(seq![]) == Seq::<Text>::empty(),
        line.len() > 0 ==> lines(line) == seq![line],
        !(line.len() > 0 && line.last() == '\r') ==> lines(line.push('\n') + rest) == seq![line]
            + lines(rest),
        lines(line.push('\r').push('\n') + rest) == seq![line] + lines(rest),
{
    if line.len() > 0 {
        assert forall|j: int| 0 <= j < line.len() implies line_chars()(#[trigger] line[j]) by {
            assert(line.contains(line[j]));
        }
        lemma_span(line, line_chars(), line.len() as int);
    }
    lemma_first_line(line, rest);
    let longer = line.push('\r');
    assert(on_one_line(longer)) by {
        if longer.contains('\n') {
            let k = choose|k: int| 0 <= k < longer.len() && longer[k] == '\n';
            assert(line.contains(line[k]));
        }
    }
    lemma_first_line(longer, rest);
    assert(longer.drop_last() =~= line);
}

/// Up to its first line feed a text is its first line.
pub proof fn lemma_first_line(line: Text, rest: Text)
    requires
        on_one_line(line),
    ensures
        lines(line.push('\n') + rest) == seq![without_return(line)] + lines(rest),
{
    let all = line.push('\n') + rest;
    let n = line.len() as int;
    assert forall|j: int| 0 <= j < n implies line_chars()(#[trigger] all[j]) by {
        assert(all[j] == line[j]);
        assert(line.contains(line[j]));
    }
    assert(all[n] == '\n');
    lemma_span(all, line_chars(), n);
    assert(all.take(n) =~= line);
    assert(all.skip(n + 1) =~= rest);
}

/// Splitting at the first mark gives back the text around it, and no mark stands
/// any earlier; where nothing is split, there is no mark.
pub proof fn law_split_is_at_the_first_mark(s: Text, mark: Text)
    ensures
        match split_at_first(s, mark) {
            Some((head, tail)) => {
                &&& s == head + mark + tail
                &&& forall|j: int|
                    0 <= j < head.len() ==> #[trigger] s.subrange(j, j + mark.len()) != mark
            },
            None => forall|j: int|
                0 <= j <= s.len() - mark.len() ==> #[trigger] s.subrange(j, j + mark.len()) != mark,
        },
{
    if exists|i: int| first_at(s, mark, i) {
        let i = choose|i: int| first_at(s, mark, i);
        let (head, tail) = split_at_first(s, mark).unwrap();
        assert(s =~= head + mark + tail) by {
            assert(s.subrange(i, i + mark.len()) =~= mark);
            assert forall|j: int| i <= j < i + mark.len() implies s[j] == mark[j - i] by {
                assert(s.subrange(i, i + mark.len())[j - i] == mark[j - i]);
            }
        }
        assert forall|j: int| 0 <= j < head.len() implies #[trigger] s.subrange(j, j + mark.len())
            != mark by {
            assert(!occurs_at(s, mark, j));
        }
    } else {
        assert forall|j: int| 0 <= j <= s.len() - mark.len() implies #[trigger] s.subrange(
            j,
            j + mark.len(),
        ) != mark by {
            if s.subrange(j, j + mark.len()) == mark {
                lemma_some_first(s, mark, j);
            }
        }
    }
}

proof fn lemma_some_first(s: Text, mark: Text, j: int)
    requires
        occurs_at(s, mark, j),
    ensures
        exists|i: int| first_at(s, mark, i),
    decreases j,
{
    if exists|k: int| 0 <= k < j && occurs_at(s, mark, k) {
        let k = choose|k: int| 0 <= k < j && occurs_at(s, mark, k);
        lemma_some_first(s, mark, k);
    } else {
        assert(first_at(s, mark, j));
    }
}

/// A text that is cut by a mark which stands nowhere before is split there.
pub proof fn law_split_undoes_joining(head: Text, mark: Text, tail: Text)
    requires
        forall|j: int|
            0 <= j < head.len() ==> #[trigger] (head + mark + tail).subrange(j, j + mark.len())
                != mark,
    ensures
        split_at_first(head + mark + tail, mark) == Some((head, tail)),
{
    let s = head + mark + tail;
    let n = head.len() as int;
    assert(s.subrange(n, n + mark.len()) =~= mark);
    assert(first_at(s, mark, n));
    let i = choose|i: int| first_at(s, mark, i);
    lemma_first_at_unique(s, mark, i, n);
    assert(s.take(n) =~= head);
    assert(s.skip(n + mark.len()) =~= tail);
}

} // verus!
