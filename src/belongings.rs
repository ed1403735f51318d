use vstd::prelude::*;
use crate::keyed::{key_index, lemma_key_index, lemma_key_index_is, lemma_push_keeps_keys, lemma_update_keeps_keys, value_of};
use crate::ordered::{moved, removed, OrderedList};
use crate::view_ids::{first_index, find_text};

verus! {

/// The ids of the views that one view holds, in order.
pub struct Belongings {
    pub view_ids: Vec<String>,
}

pub open spec fn texts(v: Seq<String>) -> Seq<Seq<char>> {
    v.map_values(|s: String| s@)
}

impl View for Belongings {
    type V = Seq<Seq<char>>;

    open spec fn view(&self) -> Seq<Seq<char>> {
        texts(self.view_ids@)
    }
}

impl Belongings {
    pub fn new(view_ids: Vec<String>) -> (r: Self)
        ensures
            r.view_ids == view_ids,
    {
        Belongings { view_ids }
    }

    pub fn into_inner(self) -> (r: Vec<String>)
        ensures
            r == self.view_ids,
    {
        self.view_ids
    }
}

/// A copy of a list of texts.
pub fn copy_texts(v: &Vec<String>) -> (r: Vec<String>)
    ensures
        r@ == v@,
{
    let r = v.clone();
    assert(r@ =~= v@);
    r
}

/// The ordered child list of one view.
pub struct BelongingsArray {
    pub container: OrderedList<String>,
}

impl View for BelongingsArray {
    type V = Seq<Seq<char>>;

    open spec fn view(&self) -> Seq<Seq<char>> {
        texts(self.container@)
    }
}

impl Clone for BelongingsArray {
    fn clone(&self) -> (r: Self)
        ensures
            r.container@ == self.container@,
    {
        BelongingsArray { container: OrderedList::from_vec(copy_texts(self.container.as_vec())) }
    }
}

impl BelongingsArray {
    /// The list kept in `container`; an empty one is put there first when it
    /// holds none.
    pub fn get_or_create_with_txn(container: &mut Option<BelongingsArray>) -> (r: Self)
        ensures
            *old(container) is None ==> r.container@ == Seq::<String>::empty(),
            *old(container) matches Some(a) ==> r.container@ == a.container@,
            *final(container) matches Some(a) && a.container@ == r.container@,
    {
        match container {
            Some(a) => a.clone(),
            None => {
                let a = BelongingsArray { container: OrderedList::new() };
                *container = Some(BelongingsArray { container: OrderedList::new() });
                a
            },
        }
    }

    pub fn from_array(belongings: Vec<String>) -> (r: Self)
        ensures
            r.container@ == belongings@,
    {
        BelongingsArray { container: OrderedList::from_vec(belongings) }
    }

    /// A copy of the ids, in order.
    pub fn get_belongings(&self) -> (r: Belongings)
        ensures
            r.view_ids@ == self.container@,
    {
        belongings_from_array_ref(&self.container)
    }

    /// See `OrderedList::move_item`.
    pub fn move_belonging_with_txn(&mut self, from: u32, to: u32)
        ensures
            final(self).container@ == moved(old(self).container@, from as int, to as int),
    {
        self.container.move_item(from as usize, to as usize);
    }

    /// Removes the id at `index`; out of range it does nothing.
    pub fn remove_belonging_with_txn(&mut self, index: u32)
        ensures
            final(self).container@ == removed(old(self).container@, index as int),
    {
        self.container.remove(index as usize);
    }

    /// Appends `view_id`.
    pub fn add_belonging_with_txn(&mut self, view_id: &str)
        ensures
            final(self).container@.len() == old(self).container@.len() + 1,
            final(self).container@.drop_last() == old(self).container@,
            final(self).container@.last()@ == view_id@,
    {
        self.container.push(view_id.to_owned());
    }

    /// Appends each of `view_ids`, in order.
    pub fn add_belongings_with_txn(&mut self, view_ids: &Vec<String>)
        ensures
            final(self)@ == old(self)@ + texts(view_ids@),
    {
        let mut i: usize = 0;
        while i < view_ids.len()
            invariant
                0 <= i <= view_ids@.len(),
                self@ == old(self)@ + texts(view_ids@.subrange(0, i as int)),
            decreases view_ids@.len() - i,
        {
            let ghost before = self.container@;
            self.add_belonging_with_txn(view_ids[i].as_str());
            proof {
                assert(self.container@ =~= before.push(self.container@.last()));
                assert(texts(view_ids@.subrange(0, i + 1)) =~= texts(view_ids@.subrange(0, i as int)).push(view_ids@[i as int]@));
                assert(self@ =~= texts(before).push(view_ids@[i as int]@));
            }
            i = i + 1;
        }
        assert(view_ids@.subrange(0, i as int) =~= view_ids@);
    }

    /// A copy of the ids, in order.
    pub fn get_belongings_with_txn(&self) -> (r: Belongings)
        ensures
            r.view_ids@ == self.container@,
    {
        belongings_from_array_ref(&self.container)
    }
}

/// A copy of the ids of an ordered list.
pub fn belongings_from_array_ref(array_ref: &OrderedList<String>) -> (r: Belongings)
    ensures
        r.view_ids@ == array_ref@,
{
    Belongings { view_ids: copy_texts(array_ref.as_vec()) }
}

/// The child list of one view, under that view's id.
pub struct BelongingEntry {
    pub bid: String,
    pub array: BelongingsArray,
}

pub type RelationView = Seq<(Seq<char>, Seq<String>)>;

/// The relation of each view to the ordered list of its children.
pub struct BelongingMap {
    pub container: Vec<BelongingEntry>,
}

/// `m` with the list under `bid` replaced by `list`, when `bid` has one.
pub open spec fn with_list(m: RelationView, bid: Seq<char>, list: Seq<String>) -> RelationView {
    let i = key_index(m, bid);
    if i >= 0 { m.update(i, (bid, list)) } else { m }
}

pub open spec fn list_or_empty(o: Option<Seq<String>>) -> Seq<String> {
    match o {
        Some(l) => l,
        None => Seq::empty(),
    }
}

impl View for BelongingMap {
    type V = RelationView;

    open spec fn view(&self) -> RelationView {
        self.container@.map_values(|e: BelongingEntry| (e.bid@, e.array.container@))
    }
}

impl BelongingMap {
    pub fn new() -> (r: Self)
        ensures
            r@ == RelationView::empty(),
    {
        let r = BelongingMap { container: Vec::new() };
        assert(r@ =~= RelationView::empty());
        r
    }

    /// The position of the list of `bid`.
    fn find(&self, bid: &str) -> (r: Option<usize>)
        ensures
            r matches Some(i) ==> i == key_index(self@, bid@) && i < self@.len() && i < self.container@.len()
                && self@[i as int].0 == bid@,
            r is None ==> key_index(self@, bid@) < 0,
    {
        proof { lemma_key_index(self@, bid@); }
        let mut i: usize = 0;
        while i < self.container.len()
            invariant
                0 <= i <= self@.len(),
                self@.len() == self.container@.len(),
                forall|j: int| 0 <= j < i ==> self@[j].0 != bid@,
            decreases self@.len() - i,
        {
            assert(self@[i as int].0 == self.container@[i as int].bid@);
            if crate::same_text(self.container[i].bid.as_str(), bid) {
                proof { lemma_key_index_is(self@, bid@, i as int); }
                return Some(i);
            }
            i = i + 1;
        }
        None
    }

    /// Replaces the entry at `i`, keeping the others.
    fn replace_at(&mut self, i: usize, e: BelongingEntry) -> (r: BelongingEntry)
        requires
            i < old(self)@.len(),
        ensures
            final(self)@ == old(self)@.update(i as int, (e.bid@, e.array.container@)),
            (r.bid@, r.array.container@) == old(self)@[i as int],
    {
        let r = self.container.remove(i);
        self.container.insert(i, e);
        assert(self@ =~= old(self)@.update(i as int, (e.bid@, e.array.container@)));
        r
    }

    /// Moves a child of `bid` (see `OrderedList::move_item`); nothing when
    /// `bid` has no list.
    pub fn move_belonging(&mut self, bid: &str, from: u32, to: u32)
        ensures
            final(self)@ == with_list(old(self)@, bid@, moved(list_or_empty(value_of(old(self)@, bid@)), from as int, to as int)),
    {
        if let Some(i) = self.find(bid) {
            let ghost before = self@;
            let mut e = self.replace_at(i, BelongingEntry { bid: String::new(), array: BelongingsArray::from_array(Vec::new()) });
            e.array.move_belonging_with_txn(from, to);
            self.replace_at(i, e);
            assert(self@ =~= with_list(before, bid@, moved(list_or_empty(value_of(before, bid@)), from as int, to as int)));
        }
    }

    /// A copy of the children of `bid`; none when it has no list.
    pub fn get_belongings(&self, bid: &str) -> (r: Option<BelongingsArray>)
        ensures
            r is Some <==> value_of(self@, bid@) is Some,
            r matches Some(a) ==> value_of(self@, bid@) == Some(a.container@),
    {
        match self.find(bid) {
            Some(i) => Some(self.container[i].array.clone()),
            None => None,
        }
    }

    /// The list of `bid`: the one it has, or else `belongings`, which is then
    /// stored as its list.
    pub fn insert_belongings(&mut self, bid: &str, belongings: Belongings) -> (r: BelongingsArray)
        ensures
            value_of(old(self)@, bid@) is Some ==> final(self)@ == old(self)@,
            value_of(old(self)@, bid@) is None ==> final(self)@ == old(self)@.push((bid@, belongings.view_ids@))
                && r.container@ == belongings.view_ids@,
            value_of(final(self)@, bid@) == Some(r.container@),
    {
        match self.find(bid) {
            Some(i) => {
                proof { lemma_key_index(self@, bid@); }
                self.container[i].array.clone()
            },
            None => {
                let array = BelongingsArray::from_array(belongings.into_inner());
                let r = array.clone();
                let ghost before = self@;
                self.container.push(BelongingEntry { bid: bid.to_owned(), array });
                proof {
                    assert(self@ =~= before.push((bid@, r.container@)));
                    lemma_key_index(before, bid@);
                    lemma_key_index_is(self@, bid@, before.len() as int);
                }
                r
            },
        }
    }

    /// Removes the child at `index` of `bid`; nothing when `bid` has no list
    /// or `index` is out of range.
    pub fn delete_belongings(&mut self, bid: &str, index: u32)
        ensures
            final(self)@ == with_list(old(self)@, bid@, removed(list_or_empty(value_of(old(self)@, bid@)), index as int)),
    {
        if let Some(i) = self.find(bid) {
            let ghost before = self@;
            let mut e = self.replace_at(i, BelongingEntry { bid: String::new(), array: BelongingsArray::from_array(Vec::new()) });
            e.array.remove_belonging_with_txn(index);
            self.replace_at(i, e);
            assert(self@ =~= with_list(before, bid@, removed(list_or_empty(value_of(before, bid@)), index as int)));
        }
    }

    /// Removes the first `child` from the children of `bid`; nothing when
    /// `bid` has no list or `child` is not in it.
    pub fn remove_child(&mut self, bid: &str, child: &str)
        ensures
            final(self)@ == with_list(old(self)@, bid@, removed(list_or_empty(value_of(old(self)@, bid@)), first_index(list_or_empty(value_of(old(self)@, bid@)), child@))),
    {
        if let Some(i) = self.find(bid) {
            let ghost before = self@;
            let mut e = self.replace_at(i, BelongingEntry { bid: String::new(), array: BelongingsArray::from_array(Vec::new()) });
            let pos = find_text(e.array.container.as_vec(), child);
            e.array.container.remove(pos);
            self.replace_at(i, e);
            assert(self@ =~= with_list(before, bid@, removed(list_or_empty(value_of(before, bid@)), first_index(list_or_empty(value_of(before, bid@)), child@))));
        }
    }

    /// Appends `child` to the children of `bid`, giving `bid` a list first
    /// when it has none.
    pub fn add_belonging(&mut self, bid: &str, child: &str)
        ensures
            value_of(old(self)@, bid@) is Some ==> final(self)@ == with_list(old(self)@, bid@, value_of(final(self)@, bid@)->Some_0),
            value_of(old(self)@, bid@) is None ==> final(self)@ == old(self)@.push((bid@, value_of(final(self)@, bid@)->Some_0)),
            forall|k: Seq<char>| k != bid@ ==> value_of(final(self)@, k) == value_of(old(self)@, k),
            value_of(final(self)@, bid@) matches Some(l)
                && l.len() == list_or_empty(value_of(old(self)@, bid@)).len() + 1
                && l.drop_last() == list_or_empty(value_of(old(self)@, bid@))
                && l.last()@ == child@,
    {
        let ghost before = self@;
        proof { lemma_key_index(before, bid@); }
        match self.find(bid) {
            Some(i) => {
                let mut e = self.replace_at(i, BelongingEntry { bid: String::new(), array: BelongingsArray::from_array(Vec::new()) });
                e.array.add_belonging_with_txn(child);
                let ghost list = e.array.container@;
                self.replace_at(i, e);
                proof {
                    assert(self@ =~= before.update(i as int, (bid@, list)));
                    lemma_update_keeps_keys(before, i as int, (bid@, list));
                    lemma_key_index_is(self@, bid@, i as int);
                }
            },
            None => {
                let mut array = BelongingsArray::from_array(Vec::new());
                array.add_belonging_with_txn(child);
                self.container.push(BelongingEntry { bid: bid.to_owned(), array });
                proof {
                    assert(self@ =~= before.push(self@.last()));
                    lemma_push_keeps_keys(before, self@.last());
                    lemma_key_index_is(self@, bid@, before.len() as int);
                }
            },
        }
    }
}

} // verus!
