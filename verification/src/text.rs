//! Text operations on `str`, stated over the sequence of characters.

use vstd::prelude::*;

verus! {

/// `text` begins with `prefix`.
pub open spec fn has_prefix(text: Seq<char>, prefix: Seq<char>) -> bool {
    prefix.len() <= text.len() && text.take(prefix.len() as int) == prefix
}

/// `part` stands in `text`, beginning at `at`.
pub open spec fn occurs_at(text: Seq<char>, part: Seq<char>, at: int) -> bool {
    0 <= at && at + part.len() <= text.len() && text.subrange(at, at + part.len()) == part
}

/// `part` stands somewhere in `text`.
pub open spec fn has_part(text: Seq<char>, part: Seq<char>) -> bool {
    exists|at: int| occurs_at(text, part, at)
}

/// `at` is the place of the first `c` in `text`.
pub open spec fn is_first(text: Seq<char>, c: char, at: int) -> bool {
    0 <= at < text.len() && text[at] == c && !text.take(at).contains(c)
}

/// What follows the last `c` of `text`; all of `text` where it has none.
pub open spec fn after_last(text: Seq<char>, c: char) -> Seq<char>
    decreases text.len(),
{
    if text.len() == 0 || text.last() == c {
        Seq::empty()
    } else {
        after_last(text.drop_last(), c).push(text.last())
    }
}

/// The `parts` one after the other, with `separator` between them.
pub open spec fn joined(parts: Seq<Seq<char>>, separator: Seq<char>) -> Seq<char>
    decreases parts.len(),
{
    if parts.len() == 0 {
        Seq::empty()
    } else if parts.len() == 1 {
        parts[0]
    } else {
        joined(parts.drop_last(), separator) + separator + parts.last()
    }
}

/// The characters of each of `parts`.
pub open spec fn texts(parts: Seq<String>) -> Seq<Seq<char>> {
    Seq::new(parts.len(), |i: int| parts[i]@)
}

/// The characters of `text`, where there is one.
pub open spec fn opt_text(text: Option<String>) -> Option<Seq<char>> {
    match text {
        Some(t) => Some(t@),
        None => None,
    }
}

/// Whether two texts have the same characters.
pub fn same_text(a: &str, b: &str) -> (same: bool)
    ensures
        same == (a@ == b@),
{
    a.to_owned() == b.to_owned()
}

/// Whether `text` begins with `prefix`.
pub fn starts_with(text: &str, prefix: &str) -> (yes: bool)
    ensures
        yes == has_prefix(text@, prefix@),
{
    let n: usize = prefix.unicode_len();
    if text.unicode_len() < n {
        false
    } else {
        same_text(text.substring_char(0, n), prefix)
    }
}

/// Whether `part` stands somewhere in `text`.
pub fn contains(text: &str, part: &str) -> (yes: bool)
    ensures
        yes == has_part(text@, part@),
{
    let n: usize = text.unicode_len();
    let m: usize = part.unicode_len();
    if n < m {
        return false;
    }
    let mut at: usize = 0;
    loop
        invariant
            n == text@.len(),
            m == part@.len(),
            at + m <= n,
            forall|k: int| 0 <= k < at ==> !occurs_at(text@, part@, k),
        decreases n - m - at,
    {
        if same_text(text.substring_char(at, at + m), part) {
            assert(occurs_at(text@, part@, at as int));
            return true;
        }
        if at == n - m {
            assert forall|k: int| !occurs_at(text@, part@, k) by {}
            return false;
        }
        at = at + 1;
    }
}

/// The place of the first `c` in `text`, counted in characters.
pub fn find_char(text: &str, c: char) -> (place: Option<usize>)
    ensures
        match place {
            Some(at) => is_first(text@, c, at as int),
            None => !text@.contains(c),
        },
{
    let n: usize = text.unicode_len();
    let mut at: usize = 0;
    while at < n
        invariant
            n == text@.len(),
            at <= n,
            forall|k: int| 0 <= k < at ==> text@[k] != c,
        decreases n - at,
    {
        if text.get_char(at) == c {
            return Some(at);
        }
        at = at + 1;
    }
    None
}

/// What follows the last `c` of `text`; all of `text` where it has none.
pub fn tail_after<'a>(text: &'a str, c: char) -> (tail: &'a str)
    ensures
        tail@ == after_last(text@, c),
{
    let n: usize = text.unicode_len();
    let mut k: usize = n;
    assert(text@.take(n as int) =~= text@);
    assert(text@.skip(n as int) =~= Seq::empty());
    while k > 0 && text.get_char(k - 1) != c
        invariant
            n == text@.len(),
            k <= n,
            after_last(text@, c) =~= after_last(text@.take(k as int), c) + text@.skip(k as int),
        decreases k,
    {
        k = k - 1;
        proof {
            let longer = text@.take(k + 1);
            assert(longer.drop_last() =~= text@.take(k as int));
            assert(text@.skip(k as int) =~= seq![text@[k as int]] + text@.skip(k + 1));
        }
    }
    text.substring_char(k, n)
}

/// The `parts` one after the other, with `separator` between them.
pub fn join(parts: &[String], separator: &str) -> (whole: String)
    ensures
        whole@ == joined(texts(parts@), separator@),
{
    let mut whole: String = String::new();
    let mut i: usize = 0;
    while i < parts.len()
        invariant
            i <= parts.len(),
            whole@ == joined(texts(parts@).take(i as int), separator@),
        decreases parts.len() - i,
    {
        if i > 0 {
            whole.append(separator);
        }
        whole.append(parts[i].as_str());
        i = i + 1;
        proof {
            let now = texts(parts@).take(i as int);
            assert(now.drop_last() =~= texts(parts@).take(i - 1));
            if i == 1 {
                assert(whole@ =~= now[0]);
            }
        }
    }
    assert(texts(parts@).take(i as int) =~= texts(parts@));
    whole
}

} // verus!
