//! What the text operations mean, in terms of the texts alone.

use vstd::prelude::*;

use crate::text;

verus! {

/// A text begins with `prefix` exactly where it is `prefix` and something behind it.
pub proof fn law_prefix_is_what_comes_first(whole: Seq<char>, prefix: Seq<char>)
    ensures
        text::has_prefix(whole, prefix) <==> exists|rest: Seq<char>|
            whole == #[trigger] (prefix + rest),
{
    if text::has_prefix(whole, prefix) {
        assert(whole =~= prefix + whole.skip(prefix.len() as int));
    }
    if exists|rest: Seq<char>| whole == #[trigger] (prefix + rest) {
        let rest = choose|rest: Seq<char>| whole == #[trigger] (prefix + rest);
        assert(whole.take(prefix.len() as int) =~= prefix);
    }
}

/// A text holds `part` exactly where it is something, `part`, and something.
pub proof fn law_part_stands_between(whole: Seq<char>, part: Seq<char>)
    ensures
        text::has_part(whole, part) <==> exists|a: Seq<char>, b: Seq<char>|
            whole == #[trigger] (a + part + b),
{
    if text::has_part(whole, part) {
        let at = choose|at: int| text::occurs_at(whole, part, at);
        let a = whole.take(at);
        let b = whole.skip(at + part.len());
        assert(whole.subrange(at, at + part.len()) == part);
        assert(whole =~= a + whole.subrange(at, at + part.len()) + b);
    }
    if exists|a: Seq<char>, b: Seq<char>| whole == #[trigger] (a + part + b) {
        let (a, b) = choose|a: Seq<char>, b: Seq<char>| whole == #[trigger] (a + part + b);
        let at = a.len() as int;
        assert(whole.subrange(at, at + part.len()) =~= part);
        assert(text::occurs_at(whole, part, at));
    }
}

/// The first place of a character has it, and no place before does.
pub proof fn law_first_place(whole: Seq<char>, c: char, at: int)
    ensures
        text::is_first(whole, c, at) <==> 0 <= at < whole.len() && whole[at] == c && forall|k: int|
            0 <= k < at ==> #[trigger] whole[k] != c,
{
    if text::is_first(whole, c, at) {
        assert forall|k: int| 0 <= k < at implies #[trigger] whole[k] != c by {
            assert(whole.take(at)[k] == whole[k]);
        }
    }
}

/// What follows the last `c` is what stands behind it, where no `c` is in that; a text
/// without `c` follows whole.
pub proof fn law_tail_stands_behind_the_last(before: Seq<char>, tail: Seq<char>, c: char)
    requires
        !tail.contains(c),
    ensures
        text::after_last(before + seq![c] + tail, c) == tail,
        text::after_last(tail, c) == tail,
    decreases tail.len(),
{
    let whole = before + seq![c] + tail;
    if tail.len() == 0 {
        assert(whole.last() == c);
        assert(tail =~= Seq::empty());
    } else {
        let shorter = tail.drop_last();
        assert(!shorter.contains(c)) by {
            if shorter.contains(c) {
                let i = choose|i: int| 0 <= i < shorter.len() && shorter[i] == c;
                assert(tail[i] == c);
            }
        }
        assert(tail.contains(tail.last()));
        law_tail_stands_behind_the_last(before, shorter, c);
        assert(whole.drop_last() =~= before + seq![c] + shorter);
        assert(shorter.push(tail.last()) =~= tail);
    }
}

/// Joining nothing gives nothing, joining one text gives it, and joining two lists gives
/// the one, the separator and the other.
pub proof fn law_join_puts_separators_between(
    a: Seq<Seq<char>>,
    b: Seq<Seq<char>>,
    one: Seq<char>,
    separator: Seq<char>,
)
    ensures
        text::joined(Seq::empty(), separator) == Seq::<char>::empty(),
        text::joined(seq![one], separator) == one,
        a.len() > 0 && b.len() > 0 ==> text::joined(a + b, separator) == text::joined(a, separator)
            + separator + text::joined(b, separator),
    decreases b.len(),
{
    if a.len() > 0 && b.len() > 0 {
        assert((a + b).drop_last() =~= a + b.drop_last());
        assert((a + b).last() == b.last());
        if b.len() == 1 {
            assert(a + b.drop_last() =~= a);
        } else {
            law_join_puts_separators_between(a, b.drop_last(), one, separator);
            assert(text::joined(a + b, separator) =~= text::joined(a, separator) + separator
                + text::joined(b, separator));
        }
    }
}

/// The texts of a list are those of its strings, one for one; an optional text is that of
/// its string, where there is one.
pub proof fn law_texts_are_the_strings(list: Seq<String>, string: String)
    ensures
        text::texts(list).len() == list.len(),
        forall|i: int| 0 <= i < list.len() ==> #[trigger] text::texts(list)[i] == list[i]@,
        text::opt_text(Some(string)) == Some(string@),
        text::opt_text(None::<String>) is None,
{
}

} // verus!
