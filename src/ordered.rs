use vstd::prelude::*;

verus! {

/// The sequence obtained by taking out the element at `from` and inserting it
/// at position `to` of the shortened sequence. Out-of-range indices leave the
/// sequence as it is.
pub open spec fn moved<T>(s: Seq<T>, from: int, to: int) -> Seq<T> {
    if 0 <= from < s.len() && 0 <= to < s.len() {
        s.remove(from).insert(to, s[from])
    } else {
        s
    }
}

/// The sequence with the element at `index` taken out; unchanged when `index`
/// is out of range.
pub open spec fn removed<T>(s: Seq<T>, index: int) -> Seq<T> {
    if 0 <= index < s.len() {
        s.remove(index)
    } else {
        s
    }
}

/// The sequence with `value` inserted at `index`, or appended when `index` is
/// past the end.
pub open spec fn inserted<T>(s: Seq<T>, index: int, value: T) -> Seq<T> {
    if 0 <= index <= s.len() {
        s.insert(index, value)
    } else {
        s.push(value)
    }
}

/// An ordered collection of items, addressed by position.
pub struct OrderedList<T> {
    pub items: Vec<T>,
}

impl<T> View for OrderedList<T> {
    type V = Seq<T>;

    open spec fn view(&self) -> Seq<T> {
        self.items@
    }
}

impl<T> OrderedList<T> {
    pub fn new() -> (r: Self)
        ensures
            r@ == Seq::<T>::empty(),
    {
        OrderedList { items: Vec::new() }
    }

    pub fn from_vec(items: Vec<T>) -> (r: Self)
        ensures
            r@ == items@,
    {
        OrderedList { items }
    }

    pub fn len(&self) -> (r: usize)
        ensures
            r == self@.len(),
    {
        self.items.len()
    }

    /// Appends `value` at the end.
    pub fn push(&mut self, value: T)
        ensures
            final(self)@ == old(self)@.push(value),
    {
        self.items.push(value);
    }

    /// Inserts `value` at `index`; an index past the end appends.
    pub fn insert(&mut self, index: usize, value: T)
        ensures
            final(self)@ == inserted(old(self)@, index as int, value),
    {
        if index <= self.items.len() {
            self.items.insert(index, value);
        } else {
            self.items.push(value);
        }
    }

    /// Takes out the element at `from` and inserts it at `to` of the shortened
    /// list. Out-of-range indices leave the list unchanged.
    pub fn move_item(&mut self, from: usize, to: usize)
        ensures
            final(self)@ == moved(old(self)@, from as int, to as int),
    {
        let n = self.items.len();
        if from < n && to < n {
            let x = self.items.remove(from);
            self.items.insert(to, x);
        }
    }

    /// Removes the element at `index`; out of range it does nothing.
    pub fn remove(&mut self, index: usize)
        ensures
            final(self)@ == removed(old(self)@, index as int),
    {
        if index < self.items.len() {
            self.items.remove(index);
        }
    }

    /// All elements, in order.
    pub fn as_vec(&self) -> (r: &Vec<T>)
        ensures
            r@ == self@,
    {
        &self.items
    }
}

/// Moving an element from `from` to `to` and then back from `to` to `from`
/// gives the sequence it started from.
pub proof fn lemma_move_back<T>(s: Seq<T>, from: int, to: int)
    requires
        0 <= from < s.len(),
        0 <= to < s.len(),
    ensures
        moved(moved(s, from, to), to, from) == s,
{
    let x = s[from];
    let t = s.remove(from);
    let u = t.insert(to, x);
    assert(u.len() == s.len());
    assert(u[to] == x);
    assert(u.remove(to) =~= t);
    assert(t.insert(from, x) =~= s);
}

} // verus!
