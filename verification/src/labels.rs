//! Label maps and the selectors made of them.

use vstd::prelude::*;

use crate::model;
use crate::text;

verus! {

/// `a` stands before `b` in the order of texts: by the first character in which
/// they differ, a text before what it begins.
pub open spec fn before(a: Seq<char>, b: Seq<char>) -> bool
    decreases a.len(),
{
    if b.len() == 0 {
        false
    } else if a.len() == 0 {
        true
    } else if a[0] == b[0] {
        before(a.skip(1), b.skip(1))
    } else {
        (a[0] as int) < (b[0] as int)
    }
}

/// No text stands before itself.
proof fn lemma_before_irreflexive(a: Seq<char>)
    ensures
        !before(a, a),
    decreases a.len(),
{
    if a.len() > 0 {
        lemma_before_irreflexive(a.skip(1));
    }
}

/// What stands before another stands before all that follow that one.
proof fn lemma_before_transitive(a: Seq<char>, b: Seq<char>, c: Seq<char>)
    requires
        before(a, b),
        before(b, c),
    ensures
        before(a, c),
    decreases a.len(),
{
    if a.len() > 0 && a[0] == b[0] && b[0] == c[0] {
        lemma_before_transitive(a.skip(1), b.skip(1), c.skip(1));
    }
}

/// Of two different texts one stands before the other.
proof fn lemma_before_total(a: Seq<char>, b: Seq<char>)
    requires
        !before(a, b),
        !before(b, a),
    ensures
        a == b,
    decreases a.len(),
{
    if a.len() > 0 && b.len() > 0 {
        lemma_before_total(a.skip(1), b.skip(1));
        assert(a =~= seq![a[0]] + a.skip(1));
        assert(b =~= seq![b[0]] + b.skip(1));
    }
    assert(a =~= b);
}

/// The selector for labels asks for each of them once, in the order of the keys.
pub proof fn law_selector_follows_from_labels(list: Seq<(Seq<char>, Seq<char>)>)
    requires
        ascending(list),
    ensures
        selector_for(as_map(list)) == selector_of(list),
{
    law_entries_follow_from_map(list, listing(as_map(list)));
}

/// Whether `a` stands before `b` in the order of texts.
fn text_before(a: &str, b: &str) -> (yes: bool)
    ensures
        yes == before(a@, b@),
{
    let n: usize = a.unicode_len();
    let m: usize = b.unicode_len();
    let mut i: usize = 0;
    assert(a@.skip(0) =~= a@);
    assert(b@.skip(0) =~= b@);
    while i < n && i < m
        invariant
            n == a@.len(),
            m == b@.len(),
            i <= n,
            i <= m,
            before(a@, b@) == before(a@.skip(i as int), b@.skip(i as int)),
        decreases n - i,
    {
        let x: char = a.get_char(i);
        let y: char = b.get_char(i);
        if x != y {
            return x < y;
        }
        assert(a@.skip(i as int).skip(1) =~= a@.skip(i + 1));
        assert(b@.skip(i as int).skip(1) =~= b@.skip(i + 1));
        i = i + 1;
    }
    i < m
}

/// The keys of `list` ascend.
pub open spec fn ascending(list: Seq<(Seq<char>, Seq<char>)>) -> bool {
    forall|i: int, j: int| 0 <= i < j < list.len() ==> before(#[trigger] list[i].0, #[trigger] list[j].0)
}

/// `list` gives `key` a value.
pub open spec fn has_key(list: Seq<(Seq<char>, Seq<char>)>, key: Seq<char>) -> bool {
    exists|i: int| 0 <= i < list.len() && (#[trigger] list[i]).0 == key
}

/// The value that `list` gives to `key`.
pub open spec fn value_of(list: Seq<(Seq<char>, Seq<char>)>, key: Seq<char>) -> Seq<char> {
    list[choose|i: int| 0 <= i < list.len() && (#[trigger] list[i]).0 == key].1
}

/// The text `key=value`.
pub open spec fn requirement(pair: (Seq<char>, Seq<char>)) -> Seq<char> {
    pair.0 + "="@ + pair.1
}

/// The selector that asks for every pair of `list`.
pub open spec fn selector_of(list: Seq<(Seq<char>, Seq<char>)>) -> Seq<char> {
    text::joined(Seq::new(list.len(), |i: int| requirement(list[i])), ","@)
}

/// `map` written down in the order of its keys.
pub open spec fn listing(map: Map<Seq<char>, Seq<char>>) -> Seq<(Seq<char>, Seq<char>)> {
    choose|list: Seq<(Seq<char>, Seq<char>)>| ascending(list) && #[trigger] as_map(list) == map
}

/// The selector that asks for every label of `map`, in the order of the keys.
pub open spec fn selector_for(map: Map<Seq<char>, Seq<char>>) -> Seq<char> {
    selector_of(listing(map))
}

/// Labels by key. No key occurs twice, and the keys ascend.
pub struct Labels {
    entries: Vec<(String, String)>,
}

impl View for Labels {
    type V = Map<Seq<char>, Seq<char>>;

    closed spec fn view(&self) -> Map<Seq<char>, Seq<char>> {
        as_map(self.entries())
    }
}

/// The map that `list` writes down.
pub open spec fn as_map(list: Seq<(Seq<char>, Seq<char>)>) -> Map<Seq<char>, Seq<char>> {
    Map::new(|key: Seq<char>| has_key(list, key), |key: Seq<char>| value_of(list, key))
}

/// In an ascending list a key has one place.
proof fn lemma_value_at(list: Seq<(Seq<char>, Seq<char>)>, i: int)
    requires
        ascending(list),
        0 <= i < list.len(),
    ensures
        has_key(list, list[i].0),
        value_of(list, list[i].0) == list[i].1,
{
    let key = list[i].0;
    let j = choose|j: int| 0 <= j < list.len() && (#[trigger] list[j]).0 == key;
    assert(list[i].0 == key);
    lemma_before_irreflexive(key);
    if i < j {
        assert(before(list[i].0, list[j].0));
    }
    if j < i {
        assert(before(list[j].0, list[i].0));
    }
}

/// A new value in the place of a key.
proof fn lemma_replaced(list: Seq<(Seq<char>, Seq<char>)>, at: int, pair: (Seq<char>, Seq<char>))
    requires
        ascending(list),
        0 <= at < list.len(),
        list[at].0 == pair.0,
    ensures
        ascending(list.update(at, pair)),
        as_map(list.update(at, pair)) == as_map(list).insert(pair.0, pair.1),
{
    let after = list.update(at, pair);
    assert forall|i: int, j: int| 0 <= i < j < after.len() implies before(
        #[trigger] after[i].0,
        #[trigger] after[j].0,
    ) by {
        assert(before(list[i].0, list[j].0));
    }
    assert forall|key: Seq<char>| #[trigger]
        as_map(after).dom().contains(key) == as_map(list).insert(pair.0, pair.1).dom().contains(
            key,
        ) by {
        if has_key(after, key) {
            let i = choose|i: int| 0 <= i < after.len() && (#[trigger] after[i]).0 == key;
            assert(list[i].0 == key);
        }
        if has_key(list, key) {
            let i = choose|i: int| 0 <= i < list.len() && (#[trigger] list[i]).0 == key;
            assert(after[i].0 == key);
        }
        assert(after[at].0 == pair.0);
    }
    assert forall|key: Seq<char>| #[trigger] as_map(after).dom().contains(key) implies as_map(
        after,
    )[key] == as_map(list).insert(pair.0, pair.1)[key] by {
        let i = choose|i: int| 0 <= i < after.len() && (#[trigger] after[i]).0 == key;
        lemma_value_at(after, i);
        lemma_value_at(list, i);
        if key == pair.0 {
            lemma_value_at(after, at);
        }
    }
    assert(as_map(after) =~= as_map(list).insert(pair.0, pair.1));
}

/// A new key in its place.
proof fn lemma_inserted(list: Seq<(Seq<char>, Seq<char>)>, at: int, pair: (Seq<char>, Seq<char>))
    requires
        ascending(list),
        0 <= at <= list.len(),
        forall|k: int| 0 <= k < at ==> before((#[trigger] list[k]).0, pair.0),
        at < list.len() ==> !before(list[at].0, pair.0) && list[at].0 != pair.0,
    ensures
        ascending(list.insert(at, pair)),
        as_map(list.insert(at, pair)) == as_map(list).insert(pair.0, pair.1),
{
    let after = list.insert(at, pair);
    assert forall|k: int| at <= k < list.len() implies before(pair.0, (#[trigger] list[k]).0) by {
        if before(pair.0, list[at].0) {
        } else {
            lemma_before_total(pair.0, list[at].0);
        }
        if k > at {
            assert(before(list[at].0, list[k].0));
            lemma_before_transitive(pair.0, list[at].0, list[k].0);
        }
    }
    assert forall|i: int, j: int| 0 <= i < j < after.len() implies before(
        #[trigger] after[i].0,
        #[trigger] after[j].0,
    ) by {
        let a = if i < at { i } else { i - 1 };
        let b = if j < at { j } else { j - 1 };
        if i == at {
            assert(after[j] == list[b]);
        } else if j == at {
            assert(after[i] == list[a]);
        } else {
            assert(after[i] == list[a] && after[j] == list[b]);
            assert(before(list[a].0, list[b].0));
        }
    }
    assert forall|key: Seq<char>| #[trigger]
        as_map(after).dom().contains(key) == as_map(list).insert(pair.0, pair.1).dom().contains(
            key,
        ) by {
        if has_key(after, key) && key != pair.0 {
            let i = choose|i: int| 0 <= i < after.len() && (#[trigger] after[i]).0 == key;
            if i < at {
                assert(list[i].0 == key);
            } else {
                assert(list[i - 1].0 == key);
            }
        }
        if has_key(list, key) {
            let i = choose|i: int| 0 <= i < list.len() && (#[trigger] list[i]).0 == key;
            if i < at {
                assert(after[i].0 == key);
            } else {
                assert(after[i + 1].0 == key);
            }
        }
        assert(after[at].0 == pair.0);
    }
    assert forall|key: Seq<char>| #[trigger] as_map(after).dom().contains(key) implies as_map(
        after,
    )[key] == as_map(list).insert(pair.0, pair.1)[key] by {
        let i = choose|i: int| 0 <= i < after.len() && (#[trigger] after[i]).0 == key;
        lemma_value_at(after, i);
        lemma_value_at(after, at);
        if key != pair.0 {
            if i < at {
                lemma_value_at(list, i);
            } else {
                lemma_value_at(list, i - 1);
            }
        }
    }
    assert(as_map(after) =~= as_map(list).insert(pair.0, pair.1));
}

/// A map is written down in one way only.
pub proof fn law_entries_follow_from_map(
    a: Seq<(Seq<char>, Seq<char>)>,
    b: Seq<(Seq<char>, Seq<char>)>,
)
    requires
        ascending(a),
        ascending(b),
        as_map(a) == as_map(b),
    ensures
        a == b,
    decreases a.len(),
{
    if a.len() > 0 {
        lemma_value_at(a, 0);
        assert(as_map(a).dom().contains(a[0].0));
        assert(as_map(b).dom().contains(a[0].0));
    }
    if b.len() > 0 {
        lemma_value_at(b, 0);
        assert(as_map(b).dom().contains(b[0].0));
        assert(as_map(a).dom().contains(b[0].0));
    }
    if a.len() > 0 && b.len() > 0 {
        let j = choose|j: int| 0 <= j < b.len() && (#[trigger] b[j]).0 == a[0].0;
        let i = choose|i: int| 0 <= i < a.len() && (#[trigger] a[i]).0 == b[0].0;
        if i > 0 && j > 0 {
            assert(before(a[0].0, a[i].0));
            assert(before(b[0].0, b[j].0));
            lemma_before_transitive(a[0].0, b[0].0, a[0].0);
            lemma_before_irreflexive(a[0].0);
        }
        assert(as_map(a)[a[0].0] == as_map(b)[a[0].0]);
        assert(a[0] == b[0]);
        lemma_tail(a);
        lemma_tail(b);
        law_entries_follow_from_map(a.skip(1), b.skip(1));
        assert(a =~= seq![a[0]] + a.skip(1));
        assert(b =~= seq![b[0]] + b.skip(1));
    }
    assert(a =~= b);
}

/// Without its first pair an ascending list writes down the map without that key.
proof fn lemma_tail(list: Seq<(Seq<char>, Seq<char>)>)
    requires
        ascending(list),
        list.len() > 0,
    ensures
        ascending(list.skip(1)),
        as_map(list.skip(1)) == as_map(list).remove(list[0].0),
{
    let tail = list.skip(1);
    assert forall|i: int, j: int| 0 <= i < j < tail.len() implies before(
        #[trigger] tail[i].0,
        #[trigger] tail[j].0,
    ) by {
        assert(before(list[i + 1].0, list[j + 1].0));
    }
    assert forall|key: Seq<char>| #[trigger]
        as_map(tail).dom().contains(key) == as_map(list).remove(list[0].0).dom().contains(key) by {
        if has_key(tail, key) {
            let i = choose|i: int| 0 <= i < tail.len() && (#[trigger] tail[i]).0 == key;
            assert(list[i + 1].0 == key);
            assert(before(list[0].0, list[i + 1].0));
            lemma_before_irreflexive(key);
        }
        if has_key(list, key) && key != list[0].0 {
            let i = choose|i: int| 0 <= i < list.len() && (#[trigger] list[i]).0 == key;
            assert(tail[i - 1].0 == key);
        }
    }
    assert forall|key: Seq<char>| #[trigger] as_map(tail).dom().contains(key) implies as_map(
        tail,
    )[key] == as_map(list).remove(list[0].0)[key] by {
        let i = choose|i: int| 0 <= i < tail.len() && (#[trigger] tail[i]).0 == key;
        lemma_value_at(tail, i);
        lemma_value_at(list, i + 1);
    }
    assert(as_map(tail) =~= as_map(list).remove(list[0].0));
}

impl Labels {
    #[verifier::type_invariant]
    spec fn well_formed(self) -> bool {
        ascending(self.entries())
    }

    /// The labels, each with its value, in the order of their keys.
    spec fn entries(self) -> Seq<(Seq<char>, Seq<char>)> {
        model::pairs(self.entries@)
    }

    /// No labels.
    pub fn new() -> (labels: Labels)
        ensures
            labels@ == Map::<Seq<char>, Seq<char>>::empty(),
    {
        let labels: Labels = Labels { entries: Vec::new() };
        assert(labels@ =~= Map::<Seq<char>, Seq<char>>::empty());
        labels
    }

    /// Give `key` the value `value`, in place of one that it has.
    pub fn insert(&mut self, key: String, value: String)
        ensures
            final(self)@ == old(self)@.insert(key@, value@),
    {
        proof {
            use_type_invariant(&*self);
        }
        let ghost was = self.entries();
        let mut entries: Vec<(String, String)> = Vec::new();
        std::mem::swap(&mut entries, &mut self.entries);
        let mut i: usize = 0;
        while i < entries.len() && text_before(entries[i].0.as_str(), key.as_str())
            invariant
                i <= entries.len(),
                was == model::pairs(entries@),
                forall|k: int| 0 <= k < i ==> before((#[trigger] was[k]).0, key@),
            decreases entries.len() - i,
        {
            i = i + 1;
        }
        let ghost pair = (key@, value@);
        if i < entries.len() && entries[i].0 == key {
            entries.set(i, (key, value));
            assert(model::pairs(entries@) =~= was.update(i as int, pair));
            proof {
                lemma_replaced(was, i as int, pair);
            }
        } else {
            entries.insert(i, (key, value));
            assert(model::pairs(entries@) =~= was.insert(i as int, pair));
            proof {
                lemma_inserted(was, i as int, pair);
            }
        }
        self.entries = entries;
    }

    /// The selector that asks for every label: `key=value` for each, in the order
    /// of the keys, with commas between them.
    pub fn selector(&self) -> (selector: String)
        ensures
            selector@ == selector_for(self@),
    {
        proof {
            use_type_invariant(self);
            law_selector_follows_from_labels(self.entries());
        }
        let mut parts: Vec<String> = Vec::new();
        let mut i: usize = 0;
        while i < self.entries.len()
            invariant
                i <= self.entries.len(),
                parts.len() == i,
                forall|k: int| 0 <= k < i ==> (#[trigger] parts[k])@ == requirement(self.entries()[k]),
            decreases self.entries.len() - i,
        {
            let mut part: String = self.entries[i].0.clone();
            part.append("=");
            part.append(self.entries[i].1.as_str());
            parts.push(part);
            i = i + 1;
        }
        assert(text::texts(parts@) =~= Seq::new(
            self.entries().len(),
            |k: int| requirement(self.entries()[k]),
        ));
        text::join(parts.as_slice(), ",")
    }
}

/// A text stands before another exactly where the two are the same up to some place, and
/// there the one ends while the other goes on, or has the smaller character.
pub proof fn law_order_of_texts(a: Seq<char>, b: Seq<char>)
    ensures
        before(a, b) <==> exists|k: int|
            {
                &&& 0 <= k <= a.len()
                &&& k < b.len()
                &&& #[trigger] a.take(k) == b.take(k)
                &&& k == a.len() || (a[k] as int) < (b[k] as int)
            },
    decreases a.len(),
{
    if b.len() > 0 && a.len() == 0 {
        assert(a.take(0) =~= b.take(0));
    } else if b.len() > 0 {
        let x = a.skip(1);
        let y = b.skip(1);
        if a[0] == b[0] {
            law_order_of_texts(x, y);
            if before(x, y) {
                let k = choose|k: int|
                    {
                        &&& 0 <= k <= x.len()
                        &&& k < y.len()
                        &&& #[trigger] x.take(k) == y.take(k)
                        &&& k == x.len() || (x[k] as int) < (y[k] as int)
                    };
                assert(a.take(k + 1) =~= seq![a[0]] + x.take(k));
                assert(b.take(k + 1) =~= seq![b[0]] + y.take(k));
                assert(a.take(k + 1) == b.take(k + 1));
            }
        } else {
            assert(a.take(0) =~= b.take(0));
        }
        if exists|k: int|
            {
                &&& 0 <= k <= a.len()
                &&& k < b.len()
                &&& #[trigger] a.take(k) == b.take(k)
                &&& k == a.len() || (a[k] as int) < (b[k] as int)
            } {
            let k = choose|k: int|
                {
                    &&& 0 <= k <= a.len()
                    &&& k < b.len()
                    &&& #[trigger] a.take(k) == b.take(k)
                    &&& k == a.len() || (a[k] as int) < (b[k] as int)
                };
            if k > 0 {
                assert(a.take(k)[0] == b.take(k)[0]);
                assert(x.take(k - 1) =~= a.take(k).skip(1));
                assert(y.take(k - 1) =~= b.take(k).skip(1));
                assert(x.take(k - 1) == y.take(k - 1));
            }
        }
    }
}

/// The selector for labels asks for all of them and for nothing else: where `list` has
/// the labels in the order of their keys, it is empty for none, `key=value` for one, and
/// else the selector for all but the last, a comma, and `key=value` of the last.
pub proof fn law_selector_asks_for_all_labels(
    map: Map<Seq<char>, Seq<char>>,
    list: Seq<(Seq<char>, Seq<char>)>,
)
    requires
        forall|i: int, j: int|
            0 <= i < j < list.len() ==> before(#[trigger] list[i].0, #[trigger] list[j].0),
        forall|key: Seq<char>| #[trigger]
            map.dom().contains(key) <==> exists|i: int|
                0 <= i < list.len() && (#[trigger] list[i]).0 == key,
        forall|i: int| 0 <= i < list.len() ==> map[(#[trigger] list[i]).0] == list[i].1,
    ensures
        list.len() == 0 ==> selector_for(map) == Seq::<char>::empty(),
        list.len() == 1 ==> selector_for(map) == list[0].0 + "="@ + list[0].1,
        list.len() > 1 ==> selector_for(map) == selector_for(map.remove(list.last().0)) + ","@ + (
        list.last().0 + "="@ + list.last().1),
{
    lemma_written(map, list);
    if list.len() > 0 {
        let fewer = list.drop_last();
        let less = map.remove(list.last().0);
        assert forall|i: int, j: int| 0 <= i < j < fewer.len() implies before(
            #[trigger] fewer[i].0,
            #[trigger] fewer[j].0,
        ) by {
            assert(before(list[i].0, list[j].0));
        }
        assert forall|i: int| 0 <= i < fewer.len() implies (#[trigger] fewer[i]).0
            != list.last().0 by {
            assert(before(list[i].0, list[list.len() - 1].0));
            lemma_before_irreflexive(list.last().0);
        }
        assert forall|key: Seq<char>| #[trigger]
            less.dom().contains(key) <==> exists|i: int|
                0 <= i < fewer.len() && (#[trigger] fewer[i]).0 == key by {
            if less.dom().contains(key) {
                assert(map.dom().contains(key));
                let i = choose|i: int| 0 <= i < list.len() && (#[trigger] list[i]).0 == key;
                assert(i < list.len() - 1);
                assert(fewer[i].0 == key);
            }
            if exists|i: int| 0 <= i < fewer.len() && (#[trigger] fewer[i]).0 == key {
                let i = choose|i: int| 0 <= i < fewer.len() && (#[trigger] fewer[i]).0 == key;
                assert(list[i].0 == key);
                assert(map.dom().contains(key));
            }
        }
        assert forall|i: int| 0 <= i < fewer.len() implies less[(#[trigger] fewer[i]).0]
            == fewer[i].1 by {
            assert(list[i] == fewer[i]);
        }
        lemma_written(less, fewer);
        let parts = Seq::new(list.len(), |i: int| requirement(list[i]));
        assert(parts.drop_last() =~= Seq::new(fewer.len(), |i: int| requirement(fewer[i])));
    }
}

/// A map that `list` gives in order has the selector of `list`.
proof fn lemma_written(map: Map<Seq<char>, Seq<char>>, list: Seq<(Seq<char>, Seq<char>)>)
    requires
        ascending(list),
        forall|key: Seq<char>| #[trigger]
            map.dom().contains(key) <==> exists|i: int|
                0 <= i < list.len() && (#[trigger] list[i]).0 == key,
        forall|i: int| 0 <= i < list.len() ==> map[(#[trigger] list[i]).0] == list[i].1,
    ensures
        selector_for(map) == selector_of(list),
{
    assert forall|key: Seq<char>| map.dom().contains(key) implies map[key] == as_map(
        list,
    )[key] by {
        let i = choose|i: int| 0 <= i < list.len() && (#[trigger] list[i]).0 == key;
        lemma_value_at(list, i);
    }
    assert(map =~= as_map(list));
    law_selector_follows_from_labels(list);
}

} // verus!
