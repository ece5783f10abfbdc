//! Collections kept in the order of their keys.
//!
//! A [`KeyedVec`] maps texts to items and walks them in ascending key order.

use vstd::prelude::*;

use crate::text;

verus! {

/// An item that carries the text it is filed under.
pub trait Keyed: Sized {
    /// The key of the item.
    spec fn key(&self) -> Seq<char>;

    /// The key of the item as a string slice.
    fn key_text(&self) -> (text: &str)
        ensures
            text@ == self.key(),
    ;
}

impl Keyed for String {
    open spec fn key(&self) -> Seq<char> {
        self@
    }

    fn key_text(&self) -> (text: &str) {
        self.as_str()
    }
}

/// The keys of `items` ascend strictly, so each occurs once.
pub open spec fn keys_ascend<T: Keyed>(items: Seq<T>) -> bool {
    forall|i: int, j: int|
        0 <= i < j < items.len() ==> text::text_lt(#[trigger] items[i].key(), #[trigger] items[j].key())
}

/// Some item of `items` has the key `key`.
pub open spec fn has_key<T: Keyed>(items: Seq<T>, key: Seq<char>) -> bool {
    exists|i: int| 0 <= i < items.len() && #[trigger] items[i].key() == key
}

/// The position of an item with the key `key`.
pub open spec fn key_index<T: Keyed>(items: Seq<T>, key: Seq<char>) -> int {
    choose|i: int| 0 <= i < items.len() && #[trigger] items[i].key() == key
}

/// The map that `items` stands for.
pub open spec fn as_map<T: Keyed>(items: Seq<T>) -> Map<Seq<char>, T> {
    Map::new(|key: Seq<char>| has_key(items, key), |key: Seq<char>| items[key_index(items, key)])
}

/// With ascending keys, the item under the key of `items[i]` is `items[i]`.
pub proof fn lemma_key_index<T: Keyed>(items: Seq<T>, i: int)
    requires
        keys_ascend(items),
        0 <= i < items.len(),
    ensures
        has_key(items, items[i].key()),
        key_index(items, items[i].key()) == i,
        as_map(items).dom().contains(items[i].key()),
        as_map(items)[items[i].key()] == items[i],
{
    let j = key_index(items, items[i].key());
    assert(items[i].key() == items[i].key());
    assert(0 <= j < items.len() && items[j].key() == items[i].key());
    text::lemma_text_lt_irreflexive(items[i].key());
    if i < j {
        assert(text::text_lt(items[i].key(), items[j].key()));
    }
    if j < i {
        assert(text::text_lt(items[j].key(), items[i].key()));
    }
}

/// The map fixes the order of the walk: two ascending sequences that stand for
/// the same map are the same sequence.
pub proof fn law_map_determines_walk<T: Keyed>(a: Seq<T>, b: Seq<T>)
    requires
        keys_ascend(a),
        keys_ascend(b),
        as_map(a) == as_map(b),
    ensures
        a == b,
    decreases a.len(),
{
    if a.len() == 0 {
        if b.len() > 0 {
            lemma_key_index(b, 0);
            assert(!has_key(a, b[0].key()));
            assert(as_map(a).dom().contains(b[0].key()));
        }
        assert(a =~= b);
    } else {
        let n = a.len() - 1;
        lemma_key_index(a, n);
        assert(as_map(b).dom().contains(a[n].key()));
        let m = key_index(b, a[n].key());
        assert(0 <= m < b.len() && b[m].key() == a[n].key());
        let k = b.len() - 1;
        lemma_key_index(b, k);
        assert(as_map(a).dom().contains(b[k].key()));
        let l = key_index(a, b[k].key());
        assert(0 <= l < a.len() && a[l].key() == b[k].key());
        // The two greatest keys are each at most the other.
        if m < k {
            assert(text::text_lt(b[m].key(), b[k].key()));
            if l < n {
                assert(text::text_lt(a[l].key(), a[n].key()));
                text::lemma_text_lt_asymmetric(a[l].key(), a[n].key());
            } else {
                text::lemma_text_lt_irreflexive(b[k].key());
            }
        }
        assert(m == k);
        lemma_key_index(b, m);
        assert(a[n] == b[k]);
        let a0 = a.drop_last();
        let b0 = b.drop_last();
        assert(keys_ascend(a0)) by {
            assert forall|i: int, j: int| 0 <= i < j < a0.len() implies text::text_lt(
                #[trigger] a0[i].key(),
                #[trigger] a0[j].key(),
            ) by {
                assert(text::text_lt(a[i].key(), a[j].key()));
            }
        }
        assert(keys_ascend(b0)) by {
            assert forall|i: int, j: int| 0 <= i < j < b0.len() implies text::text_lt(
                #[trigger] b0[i].key(),
                #[trigger] b0[j].key(),
            ) by {
                assert(text::text_lt(b[i].key(), b[j].key()));
            }
        }
        lemma_as_map_drop_last(a);
        lemma_as_map_drop_last(b);
        law_map_determines_walk(a0, b0);
        assert(a =~= a0.push(a[n]));
        assert(b =~= b0.push(b[k]));
    }
}

proof fn lemma_as_map_drop_last<T: Keyed>(a: Seq<T>)
    requires
        keys_ascend(a),
        a.len() > 0,
    ensures
        as_map(a.drop_last()) == as_map(a).remove(a.last().key()),
{
    let a0 = a.drop_last();
    let n = a.len() - 1;
    let left = as_map(a0);
    let right = as_map(a).remove(a.last().key());
    text::lemma_text_lt_irreflexive(a[n].key());
    assert forall|key: Seq<char>| left.dom().contains(key) == right.dom().contains(key) by {
        if has_key(a0, key) {
            let i = key_index(a0, key);
            assert(a0[i].key() == key);
            assert(a[i].key() == key);
            assert(text::text_lt(a[i].key(), a[n].key()));
        }
        if has_key(a, key) && key != a[n].key() {
            let i = key_index(a, key);
            assert(a0[i].key() == key);
        }
    }
    assert forall|i: int, j: int| 0 <= i < j < a0.len() implies text::text_lt(
        #[trigger] a0[i].key(),
        #[trigger] a0[j].key(),
    ) by {
        assert(text::text_lt(a[i].key(), a[j].key()));
    }
    assert forall|key: Seq<char>| left.dom().contains(key) implies left[key] == right[key] by {
        let i = key_index(a0, key);
        assert(a0[i].key() == key);
        lemma_key_index(a0, i);
        lemma_key_index(a, i);
    }
    assert(left =~= right);
}

/// A map from texts to items, kept as a vector in ascending key order.
pub struct KeyedVec<T: Keyed> {
    items: Vec<T>,
}

impl<T: Keyed> View for KeyedVec<T> {
    type V = Map<Seq<char>, T>;

    open spec fn view(&self) -> Map<Seq<char>, T> {
        as_map(self.seq())
    }
}

impl<T: Keyed> KeyedVec<T> {
    /// The items in the order in which they are walked.
    pub closed spec fn seq(&self) -> Seq<T> {
        self.items@
    }

    /// The items stand in ascending key order.
    pub open spec fn wf(&self) -> bool {
        keys_ascend(self.seq())
    }

    /// The set of keys.
    pub open spec fn keys(&self) -> Set<Seq<char>> {
        self@.dom()
    }

    /// A collection without items.
    pub fn new() -> (empty: Self)
        ensures
            empty.wf(),
            empty.seq() == Seq::<T>::empty(),
            empty@ == Map::<Seq<char>, T>::empty(),
    {
        let empty = KeyedVec { items: Vec::new() };
        assert(empty@ =~= Map::<Seq<char>, T>::empty());
        empty
    }

    /// The number of items.
    pub fn len(&self) -> (n: usize)
        ensures
            n == self.seq().len(),
    {
        self.items.len()
    }

    /// The item at position `i` of the walk.
    pub fn at(&self, i: usize) -> (item: &T)
        requires
            i < self.seq().len(),
        ensures
            *item == self.seq()[i as int],
    {
        &self.items[i]
    }

    /// The first position whose key is not below `key`, and whether it holds `key`.
    fn locate(&self, key: &str) -> (found: (bool, usize))
        requires
            self.wf(),
        ensures
            found.1 <= self.seq().len(),
            forall|i: int|
                0 <= i < found.1 ==> text::text_lt(#[trigger] self.seq()[i].key(), key@),
            forall|i: int|
                found.1 <= i < self.seq().len() ==> !text::text_lt(#[trigger] self.seq()[i].key(), key@),
            found.0 <==> found.1 < self.seq().len() && self.seq()[found.1 as int].key() == key@,
            found.0 == has_key(self.seq(), key@),
    {
        let mut low: usize = 0;
        let mut high: usize = self.items.len();
        while low < high
            invariant
                self.wf(),
                low <= high <= self.seq().len(),
                forall|i: int| 0 <= i < low ==> text::text_lt(#[trigger] self.seq()[i].key(), key@),
                forall|i: int|
                    high <= i < self.seq().len() ==> !text::text_lt(
                        #[trigger] self.seq()[i].key(),
                        key@,
                    ),
            decreases high - low,
        {
            let mid: usize = low + (high - low) / 2;
            let before = text::sorts_before(self.items[mid].key_text(), key);
            if before {
                proof {
                    assert forall|i: int| 0 <= i < mid + 1 implies text::text_lt(
                        #[trigger] self.seq()[i].key(),
                        key@,
                    ) by {
                        if i < mid {
                            text::lemma_text_lt_transitive(
                                self.seq()[i].key(),
                                self.seq()[mid as int].key(),
                                key@,
                            );
                        }
                    }
                }
                low = mid + 1;
            } else {
                proof {
                    assert forall|i: int| mid <= i < self.seq().len() implies !text::text_lt(
                        #[trigger] self.seq()[i].key(),
                        key@,
                    ) by {
                        if i > mid && text::text_lt(self.seq()[i].key(), key@) {
                            text::lemma_text_lt_transitive(
                                self.seq()[mid as int].key(),
                                self.seq()[i].key(),
                                key@,
                            );
                        }
                    }
                }
                high = mid;
            }
        }
        let present: bool = low < self.items.len() && text::same_text(self.items[low].key_text(), key);
        proof {
            text::lemma_text_lt_irreflexive(key@);
            if has_key(self.seq(), key@) {
                let i = key_index(self.seq(), key@);
                assert(self.seq()[i].key() == key@);
                if i > low {
                    assert(text::text_lt(self.seq()[low as int].key(), self.seq()[i].key()));
                }
                assert(i == low);
            }
        }
        (present, low)
    }

    /// The position of `key` in the walk.
    pub fn position(&self, key: &str) -> (at: Option<usize>)
        requires
            self.wf(),
        ensures
            at is Some <==> self@.dom().contains(key@),
            at matches Some(i) ==> i < self.seq().len() && self.seq()[i as int].key() == key@
                && self@[key@] == self.seq()[i as int],
    {
        let (found, i) = self.locate(key);
        if found {
            proof {
                lemma_key_index(self.seq(), i as int);
            }
            Some(i)
        } else {
            None
        }
    }

    /// Whether `key` has an item.
    pub fn contains(&self, key: &str) -> (has: bool)
        requires
            self.wf(),
        ensures
            has == self@.dom().contains(key@),
    {
        let (found, _) = self.locate(key);
        found
    }

    /// The item under `key`.
    pub fn get(&self, key: &str) -> (item: Option<&T>)
        requires
            self.wf(),
        ensures
            item is Some <==> self@.dom().contains(key@),
            item matches Some(t) ==> *t == self@[key@] && t.key() == key@,
    {
        match self.position(key) {
            Some(i) => Some(&self.items[i]),
            None => None,
        }
    }

    /// Files `item` under its key, replacing what stood there.
    pub fn upsert(&mut self, item: T)
        requires
            old(self).wf(),
        ensures
            final(self).wf(),
            final(self)@ == old(self)@.insert(item.key(), item),
    {
        let ghost before = self.seq();
        let (found, i) = self.locate(item.key_text());
        if found {
            self.items[i] = item;
            proof {
                lemma_update_ascends(before, i as int, item);
            }
        } else {
            self.items.insert(i, item);
            proof {
                lemma_insert_ascends(before, i as int, item);
            }
        }
    }

    /// Takes the item under `key` out.
    pub fn take(&mut self, key: &str) -> (item: Option<T>)
        requires
            old(self).wf(),
        ensures
            final(self).wf(),
            final(self)@ == old(self)@.remove(key@),
            item is Some <==> old(self)@.dom().contains(key@),
            item matches Some(t) ==> t == old(self)@[key@] && t.key() == key@,
            item is None ==> *final(self) == *old(self),
    {
        let ghost before = self.seq();
        let (found, i) = self.locate(key);
        if found {
            let item = self.items.remove(i);
            proof {
                lemma_remove_ascends(before, i as int);
                lemma_key_index(before, i as int);
            }
            Some(item)
        } else {
            proof {
                assert(self@ =~= old(self)@.remove(key@));
            }
            None
        }
    }

    /// Drops the item under `key`; tells whether there was one.
    pub fn remove(&mut self, key: &str) -> (had: bool)
        requires
            old(self).wf(),
        ensures
            final(self).wf(),
            final(self)@ == old(self)@.remove(key@),
            had == old(self)@.dom().contains(key@),
            !had ==> *final(self) == *old(self),
    {
        match self.take(key) {
            Some(_) => true,
            None => false,
        }
    }
}

proof fn lemma_update_ascends<T: Keyed>(items: Seq<T>, at: int, item: T)
    requires
        keys_ascend(items),
        0 <= at < items.len(),
        items[at].key() == item.key(),
    ensures
        keys_ascend(items.update(at, item)),
        as_map(items.update(at, item)) == as_map(items).insert(item.key(), item),
{
    let next = items.update(at, item);
    assert forall|i: int, j: int| 0 <= i < j < next.len() implies text::text_lt(
        #[trigger] next[i].key(),
        #[trigger] next[j].key(),
    ) by {
        assert(text::text_lt(items[i].key(), items[j].key()));
    }
    let left = as_map(next);
    let right = as_map(items).insert(item.key(), item);
    assert forall|key: Seq<char>| left.dom().contains(key) == right.dom().contains(key) by {
        if has_key(next, key) {
            let i = key_index(next, key);
            assert(next[i].key() == key);
            assert(items[i].key() == key);
        }
        if has_key(items, key) {
            let i = key_index(items, key);
            assert(items[i].key() == key);
            assert(next[i].key() == key);
        }
        assert(next[at].key() == item.key());
    }
    assert forall|key: Seq<char>| left.dom().contains(key) implies left[key] == right[key] by {
        let i = key_index(next, key);
        assert(next[i].key() == key);
        lemma_key_index(next, i);
        lemma_key_index(items, i);
        if i != at {
            lemma_key_index(next, at);
        }
    }
    assert(left =~= right);
}

proof fn lemma_insert_ascends<T: Keyed>(items: Seq<T>, at: int, item: T)
    requires
        keys_ascend(items),
        0 <= at <= items.len(),
        !has_key(items, item.key()),
        forall|i: int| 0 <= i < at ==> text::text_lt(#[trigger] items[i].key(), item.key()),
        forall|i: int|
            at <= i < items.len() ==> !text::text_lt(#[trigger] items[i].key(), item.key()),
    ensures
        keys_ascend(items.insert(at, item)),
        as_map(items.insert(at, item)) == as_map(items).insert(item.key(), item),
{
    let next = items.insert(at, item);
    assert forall|i: int| at <= i < items.len() implies text::text_lt(
        item.key(),
        #[trigger] items[i].key(),
    ) by {
        text::lemma_text_lt_total(item.key(), items[i].key());
    }
    assert forall|i: int, j: int| 0 <= i < j < next.len() implies text::text_lt(
        #[trigger] next[i].key(),
        #[trigger] next[j].key(),
    ) by {
        if i < at && j > at {
            assert(text::text_lt(items[i].key(), items[j - 1].key()));
        } else if i < at && j == at {
            assert(text::text_lt(items[i].key(), item.key()));
        } else if i == at {
            assert(text::text_lt(item.key(), items[j - 1].key()));
        } else if i > at {
            assert(text::text_lt(items[i - 1].key(), items[j - 1].key()));
        } else {
            assert(text::text_lt(items[i].key(), items[j].key()));
        }
    }
    let left = as_map(next);
    let right = as_map(items).insert(item.key(), item);
    assert(next[at].key() == item.key());
    assert forall|key: Seq<char>| left.dom().contains(key) == right.dom().contains(key) by {
        if has_key(next, key) {
            let i = key_index(next, key);
            assert(next[i].key() == key);
            if i < at {
                assert(items[i].key() == key);
            } else if i > at {
                assert(items[i - 1].key() == key);
            }
        }
        if has_key(items, key) {
            let i = key_index(items, key);
            assert(items[i].key() == key);
            if i < at {
                assert(next[i].key() == key);
            } else {
                assert(next[i + 1].key() == key);
            }
        }
    }
    assert forall|key: Seq<char>| left.dom().contains(key) implies left[key] == right[key] by {
        let i = key_index(next, key);
        assert(next[i].key() == key);
        lemma_key_index(next, i);
        if i < at {
            lemma_key_index(items, i);
        } else if i > at {
            lemma_key_index(items, i - 1);
        }
    }
    assert(left =~= right);
}

proof fn lemma_remove_ascends<T: Keyed>(items: Seq<T>, at: int)
    requires
        keys_ascend(items),
        0 <= at < items.len(),
    ensures
        keys_ascend(items.remove(at)),
        as_map(items.remove(at)) == as_map(items).remove(items[at].key()),
{
    let next = items.remove(at);
    assert forall|i: int, j: int| 0 <= i < j < next.len() implies text::text_lt(
        #[trigger] next[i].key(),
        #[trigger] next[j].key(),
    ) by {
        let a = if i < at { i } else { i + 1 };
        let b = if j < at { j } else { j + 1 };
        assert(text::text_lt(items[a].key(), items[b].key()));
    }
    let left = as_map(next);
    let right = as_map(items).remove(items[at].key());
    assert forall|key: Seq<char>| left.dom().contains(key) == right.dom().contains(key) by {
        if has_key(next, key) {
            let i = key_index(next, key);
            assert(next[i].key() == key);
            let a = if i < at { i } else { i + 1 };
            assert(items[a].key() == key);
            lemma_key_index(items, a);
            lemma_key_index(items, at);
        }
        if has_key(items, key) && key != items[at].key() {
            let i = key_index(items, key);
            assert(items[i].key() == key);
            let b = if i < at { i } else { i - 1 };
            assert(next[b].key() == key);
        }
    }
    assert forall|key: Seq<char>| left.dom().contains(key) implies left[key] == right[key] by {
        let i = key_index(next, key);
        assert(next[i].key() == key);
        lemma_key_index(next, i);
        let a = if i < at { i } else { i + 1 };
        lemma_key_index(items, a);
    }
    assert(left =~= right);
}

// ---------------------------------------------------------------------------
// Laws
// ---------------------------------------------------------------------------

/// `items` files `item` under `key`.
pub open spec fn files<T: Keyed>(items: Seq<T>, key: Seq<char>, item: T) -> bool {
    item.key() == key && items.contains(item)
}

/// With ascending keys, what is filed is what the map holds.
pub proof fn lemma_files<T: Keyed>(items: Seq<T>, key: Seq<char>, item: T)
    requires
        keys_ascend(items),
    ensures
        files(items, key, item) <==> as_map(items).dom().contains(key) && as_map(items)[key]
            == item,
        as_map(items).dom().contains(key) <==> exists|i: int|
            0 <= i < items.len() && #[trigger] items[i].key() == key,
{
    if files(items, key, item) {
        let i = choose|i: int| 0 <= i < items.len() && items[i] == item;
        lemma_key_index(items, i);
    }
    if as_map(items).dom().contains(key) {
        let i = key_index(items, key);
        assert(items[i].key() == key);
        lemma_key_index(items, i);
    }
}

/// What is looked up under a key is the item that is filed there, and there is
/// one for the keys of the items only.
pub proof fn law_lookup_finds_the_filed_item<T: Keyed>(
    list: KeyedVec<T>,
    key: &str,
    at: Option<usize>,
    has: bool,
    found: Option<&T>,
    item: T,
)
    requires
        list.wf(),
        call_ensures(KeyedVec::<T>::position, (&list, key), at),
        call_ensures(KeyedVec::<T>::contains, (&list, key), has),
        call_ensures(KeyedVec::<T>::get, (&list, key), found),
    ensures
        has <==> exists|i: int| 0 <= i < list.seq().len() && #[trigger] list.seq()[i].key() == key@,
        has <==> at is Some,
        has <==> found is Some,
        files(list.seq(), key@, item) <==> (found matches Some(t) && *t == item),
        at matches Some(i) ==> i < list.seq().len() && list.seq()[i as int].key() == key@,
{
    lemma_files(list.seq(), key@, item);
}

/// Filing an item puts it under its key, replaces what stood there and leaves
/// what stands under other keys; the keys keep ascending.
pub proof fn law_upsert_replaces_one_item<T: Keyed>(
    list: &mut KeyedVec<T>,
    item: T,
    key: Seq<char>,
    other: T,
)
    requires
        old(list).wf(),
        call_ensures(KeyedVec::<T>::upsert, (list, item), ()),
    ensures
        keys_ascend(final(list).seq()),
        key == item.key() ==> (files(final(list).seq(), key, other) <==> other == item),
        key != item.key() ==> (files(final(list).seq(), key, other) <==> files(
            old(list).seq(),
            key,
            other,
        )),
{
    lemma_files(final(list).seq(), key, other);
    lemma_files(old(list).seq(), key, other);
}

/// Taking or removing a key takes the item filed there and no other.
pub proof fn law_removal_takes_one_item<T: Keyed>(
    taken: &mut KeyedVec<T>,
    removed: &mut KeyedVec<T>,
    name: &str,
    item: Option<T>,
    had: bool,
    key: Seq<char>,
    other: T,
)
    requires
        old(taken).wf(),
        old(removed).wf(),
        call_ensures(KeyedVec::<T>::take, (taken, name), item),
        call_ensures(KeyedVec::<T>::remove, (removed, name), had),
    ensures
        keys_ascend(final(taken).seq()) && keys_ascend(final(removed).seq()),
        files(final(taken).seq(), key, other) <==> files(old(taken).seq(), key, other) && key
            != name@,
        files(final(removed).seq(), key, other) <==> files(old(removed).seq(), key, other) && key
            != name@,
        item == Some(other) <==> files(old(taken).seq(), name@, other),
        had <==> exists|i: int|
            0 <= i < old(removed).seq().len() && #[trigger] old(removed).seq()[i].key() == name@,
{
    lemma_files(final(taken).seq(), key, other);
    lemma_files(old(taken).seq(), key, other);
    lemma_files(old(taken).seq(), name@, other);
    lemma_files(final(removed).seq(), key, other);
    lemma_files(old(removed).seq(), key, other);
    lemma_files(old(removed).seq(), name@, other);
}

/// A fresh collection files nothing.
pub proof fn law_fresh_collection_is_empty<T: Keyed>(
    list: KeyedVec<T>,
    n: usize,
    key: Seq<char>,
    item: T,
)
    requires
        call_ensures(KeyedVec::<T>::new, (), list),
        call_ensures(KeyedVec::<T>::len, (&list,), n),
    ensures
        n == 0,
        !files(list.seq(), key, item),
{
}

} // verus!
