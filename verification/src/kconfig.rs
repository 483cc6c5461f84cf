//! Lookups in Klipper's embedded Kconfig.
use vstd::prelude::*;

use crate::text;

verus! {

/// Whether a configuration has a line that, without surrounding white space, is `entry`.
pub open spec fn has_entry(kconfig: Seq<char>, entry: Seq<char>) -> bool {
    exists|i: int|
        0 <= i < text::text_lines(kconfig).len() && text::trimmed(
            #[trigger] text::text_lines(kconfig)[i],
        ) == entry
}

/// Whether a configuration has a line that, without surrounding white space, is `entry`.
pub fn contains_entry(kconfig: &str, entry: &str) -> (found: bool)
    ensures
        found == has_entry(kconfig@, entry@),
{
    let lines: Vec<String> = text::lines(kconfig);
    let mut i: usize = 0;
    while i < lines.len()
        invariant
            i <= lines@.len(),
            text::texts(lines@) == text::text_lines(kconfig@),
            forall|k: int|
                0 <= k < i ==> text::trimmed(#[trigger] text::text_lines(kconfig@)[k]) != entry@,
        decreases lines@.len() - i,
    {
        assert(text::text_lines(kconfig@)[i as int] == lines@[i as int]@);
        if text::same_text(text::trim(lines[i].as_str()), entry) {
            return true;
        }
        i += 1;
    }
    assert(lines@.len() == text::text_lines(kconfig@).len());
    false
}


proof fn lemma_first_line_has_entry(line: Seq<char>, rest: Seq<char>, entry: Seq<char>)
    requires
        !line.contains('\n'),
    ensures
        has_entry(line + seq!['\n'] + rest, entry) == (text::trimmed(line) == entry || has_entry(
            rest,
            entry,
        )),
{
    let s = line + seq!['\n'] + rest;
    assert(s[line.len() as int] == '\n');
    let parts = text::lemma_first_line(s);
    if parts.0.len() < line.len() {
        assert(s[parts.0.len() as int] == '\n');
        assert(line[parts.0.len() as int] == s[parts.0.len() as int]);
        assert(line.contains('\n'));
    }
    if parts.0.len() > line.len() {
        assert(s[line.len() as int] == '\n');
        assert(parts.0[line.len() as int] == s[line.len() as int]);
        assert(parts.0.contains('\n'));
    }
    assert(parts.0.len() == line.len());
    assert(parts.0 =~= s.take(line.len() as int));
    assert(line =~= s.take(line.len() as int));
    assert(parts.1 =~= s.skip(line.len() as int + 1));
    assert(rest =~= s.skip(line.len() as int + 1));
    let all = text::text_lines(s);
    let tail = text::text_lines(rest);
    text::lemma_trimmed_without_carriage_return(line);
    assert(text::trimmed(all[0]) == text::trimmed(line));
    if has_entry(rest, entry) {
        let i = choose|i: int| 0 <= i < tail.len() && text::trimmed(#[trigger] tail[i]) == entry;
        assert(all[i + 1] == tail[i]);
    }
    if has_entry(s, entry) && text::trimmed(line) != entry {
        let i = choose|i: int| 0 <= i < all.len() && text::trimmed(#[trigger] all[i]) == entry;
        assert(all[i] == tail[i - 1]);
    }
}

/// A configuration of one line has the entry that the line is, without the white space around it,
/// and no other.
pub proof fn law_entry_is_a_whole_line(
    before: Seq<char>,
    line: Seq<char>,
    after: Seq<char>,
    entry: Seq<char>,
)
    requires
        text::blank(before),
        text::blank(after),
        !(before + line + after).contains('\n'),
        line.len() > 0,
        !text::is_white_space(line[0]),
        !text::is_white_space(line.last()),
    ensures
        has_entry(before + line + after, entry) == (entry == line),
{
    let all = before + line + after;
    text::law_trimming_takes_only_white_space(before, line, after);
    text::law_line_ends_at_the_line_feed(all, Seq::empty());
    assert(text::text_lines(all)[0] == all);
}

/// A configuration in two parts has exactly the entries that either part has, and an empty one has
/// none.
pub proof fn law_entries_are_those_of_the_parts(
    first: Seq<char>,
    second: Seq<char>,
    entry: Seq<char>,
)
    requires
        entry.len() > 0,
    ensures
        has_entry(first + seq!['\n'] + second, entry) == (has_entry(first, entry) || has_entry(
            second,
            entry,
        )),
        !has_entry(Seq::empty(), entry),
    decreases first.len(),
{
    text::law_line_ends_at_the_line_feed(Seq::empty(), Seq::empty());
    if first.contains('\n') {
        let parts = text::lemma_first_line(first);
        let whole = first + seq!['\n'] + second;
        let rest = parts.1 + seq!['\n'] + second;
        assert(whole =~= parts.0 + seq!['\n'] + rest);
        lemma_first_line_has_entry(parts.0, rest, entry);
        lemma_first_line_has_entry(parts.0, parts.1, entry);
        law_entries_are_those_of_the_parts(parts.1, second, entry);
    } else {
        lemma_first_line_has_entry(first, second, entry);
        text::law_line_ends_at_the_line_feed(first, Seq::empty());
        if first.len() > 0 {
            assert(text::text_lines(first)[0] == first);
        } else {
            text::law_trimming_takes_only_white_space(first, Seq::empty(), Seq::empty());
            assert(first + Seq::<char>::empty() + Seq::<char>::empty() =~= first);
            assert(first =~= Seq::empty());
        }
    }
}

} // verus!
