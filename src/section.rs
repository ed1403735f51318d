use vstd::prelude::*;

verus! {

/// The sections that a view can be in besides its place in the tree.
#[derive(PartialEq, Eq, Structural, Clone, Copy, Debug)]
pub enum Section {
    Favorite,
    Recent,
    Trash,
    Private,
}

/// An entry of a section: the id of a view and when it was put there.
pub struct SectionItem {
    pub id: String,
    pub timestamp: i64,
}

pub type SectionItemModel = (Seq<char>, i64);

impl View for SectionItem {
    type V = SectionItemModel;

    open spec fn view(&self) -> SectionItemModel {
        (self.id@, self.timestamp)
    }
}

impl Clone for SectionItem {
    fn clone(&self) -> (r: Self)
        ensures
            r@ == self@,
    {
        SectionItem { id: self.id.clone(), timestamp: self.timestamp }
    }
}

/// An item of one section, held for one user.
pub struct SectionEntry {
    pub section: Section,
    pub uid: i64,
    pub item: SectionItem,
}

pub type SectionEntryModel = (Section, i64, SectionItemModel);

impl View for SectionEntry {
    type V = SectionEntryModel;

    open spec fn view(&self) -> SectionEntryModel {
        (self.section, self.uid, self.item@)
    }
}

impl Clone for SectionEntry {
    fn clone(&self) -> (r: Self)
        ensures
            r@ == self@,
    {
        SectionEntry { section: self.section, uid: self.uid, item: self.item.clone() }
    }
}

/// Whose entries a query takes.
#[derive(PartialEq, Eq, Structural, Clone, Copy, Debug)]
pub enum Owner {
    /// Everybody's.
    Anyone,
    /// Those of this user.
    Is(i64),
    /// Those of every user but this one.
    Not(i64),
}

pub open spec fn owner_takes(o: Owner, uid: i64) -> bool {
    match o {
        Owner::Anyone => true,
        Owner::Is(u) => uid == u,
        Owner::Not(u) => uid != u,
    }
}

/// The items, in order, of the entries of section `sec` that `o` takes.
pub open spec fn select(s: Seq<SectionEntryModel>, sec: Section, o: Owner) -> Seq<SectionItemModel>
    decreases s.len(),
{
    if s.len() == 0 {
        Seq::empty()
    } else {
        let rest = select(s.drop_last(), sec, o);
        if s.last().0 == sec && owner_takes(o, s.last().1) { rest.push(s.last().2) } else { rest }
    }
}

/// Whether an entry of section `sec` for user `uid` holds the view `id`.
pub open spec fn has_entry(s: Seq<SectionEntryModel>, sec: Section, uid: i64, id: Seq<char>) -> bool {
    exists|j: int| 0 <= j < s.len() && (#[trigger] s[j]).0 == sec && s[j].1 == uid && s[j].2.0 == id
}

/// The entries without those of section `sec` for `uid` that hold `id`.
pub open spec fn without(s: Seq<SectionEntryModel>, sec: Section, uid: i64, id: Seq<char>) -> Seq<SectionEntryModel>
    decreases s.len(),
{
    if s.len() == 0 {
        Seq::empty()
    } else {
        let rest = without(s.drop_last(), sec, uid, id);
        if s.last().0 == sec && s.last().1 == uid && s.last().2.0 == id { rest } else { rest.push(s.last()) }
    }
}

/// The section entries of a folder.
pub struct SectionMap {
    pub entries: Vec<SectionEntry>,
}

impl View for SectionMap {
    type V = Seq<SectionEntryModel>;

    open spec fn view(&self) -> Seq<SectionEntryModel> {
        self.entries@.map_values(|e: SectionEntry| e@)
    }
}

impl SectionMap {
    pub fn new() -> (r: Self)
        ensures
            r@ == Seq::<SectionEntryModel>::empty(),
    {
        let r = SectionMap { entries: Vec::new() };
        assert(r@ =~= Seq::<SectionEntryModel>::empty());
        r
    }

    fn takes(o: Owner, uid: i64) -> (r: bool)
        ensures
            r == owner_takes(o, uid),
    {
        match o {
            Owner::Anyone => true,
            Owner::Is(u) => uid == u,
            Owner::Not(u) => uid != u,
        }
    }

    /// The items of section `section` that `owner` takes, in order.
    pub fn items(&self, section: Section, owner: Owner) -> (r: Vec<SectionItem>)
        ensures
            r@.map_values(|i: SectionItem| i@) == select(self@, section, owner),
    {
        let mut r: Vec<SectionItem> = Vec::new();
        let mut i: usize = 0;
        while i < self.entries.len()
            invariant
                0 <= i <= self.entries@.len(),
                self@.len() == self.entries@.len(),
                r@.map_values(|i: SectionItem| i@) == select(self@.subrange(0, i as int), section, owner),
            decreases self.entries@.len() - i,
        {
            let ghost before = r@.map_values(|i: SectionItem| i@);
            assert(self@.subrange(0, i + 1).drop_last() =~= self@.subrange(0, i as int));
            assert(self@[i as int] == self.entries@[i as int]@);
            let e = &self.entries[i];
            if e.section == section && Self::takes(owner, e.uid) {
                r.push(e.item.clone());
                assert(r@.map_values(|i: SectionItem| i@) =~= before.push(e.item@));
            }
            i = i + 1;
        }
        assert(self@.subrange(0, i as int) =~= self@);
        r
    }

    /// Puts `item` in section `section` for `uid`, unless it is there already.
    pub fn add_section_item(&mut self, section: Section, uid: i64, item: SectionItem)
        ensures
            has_entry(old(self)@, section, uid, item.id@) ==> final(self)@ == old(self)@,
            !has_entry(old(self)@, section, uid, item.id@) ==> final(self)@ == old(self)@.push((section, uid, item@)),
    {
        let mut i: usize = 0;
        while i < self.entries.len()
            invariant
                0 <= i <= self.entries@.len(),
                self@.len() == self.entries@.len(),
                self@ == old(self)@,
                forall|j: int| 0 <= j < i ==> !((#[trigger] self@[j]).0 == section && self@[j].1 == uid && self@[j].2.0 == item.id@),
            decreases self.entries@.len() - i,
        {
            assert(self@[i as int] == self.entries@[i as int]@);
            if self.entries[i].section == section && self.entries[i].uid == uid
                && crate::same_text(self.entries[i].item.id.as_str(), item.id.as_str()) {
                return;
            }
            i = i + 1;
        }
        let ghost e = (section, uid, item@);
        self.entries.push(SectionEntry { section, uid, item });
        assert(self@ =~= old(self)@.push(e));
    }

    /// Takes the view `id` out of section `section` for `uid`.
    pub fn delete_section_items(&mut self, section: Section, uid: i64, id: &str)
        ensures
            final(self)@ == without(old(self)@, section, uid, id@),
    {
        let mut kept: Vec<SectionEntry> = Vec::new();
        let mut i: usize = 0;
        while i < self.entries.len()
            invariant
                0 <= i <= self.entries@.len(),
                self@.len() == self.entries@.len(),
                self@ == old(self)@,
                kept@.map_values(|e: SectionEntry| e@) == without(self@.subrange(0, i as int), section, uid, id@),
            decreases self.entries@.len() - i,
        {
            let ghost before = kept@.map_values(|e: SectionEntry| e@);
            assert(self@.subrange(0, i + 1).drop_last() =~= self@.subrange(0, i as int));
            assert(self@[i as int] == self.entries@[i as int]@);
            let e = &self.entries[i];
            if !(e.section == section && e.uid == uid && crate::same_text(e.item.id.as_str(), id)) {
                kept.push(e.clone());
                assert(kept@.map_values(|e: SectionEntry| e@) =~= before.push(self@[i as int]));
            }
            i = i + 1;
        }
        assert(self@.subrange(0, i as int) =~= self@);
        self.entries = kept;
    }
}

/// A query of one section never hands out a view that has no entry in that
/// section: a view that is only a favorite is in no trash or private query.
pub proof fn lemma_section_queries_apart(s: Seq<SectionEntryModel>, sec: Section, o: Owner, id: Seq<char>)
    requires
        forall|j: int| 0 <= j < s.len() && (#[trigger] s[j]).2.0 == id ==> s[j].0 != sec,
    ensures
        forall|k: int| 0 <= k < select(s, sec, o).len() ==> (#[trigger] select(s, sec, o)[k]).0 != id,
    decreases s.len(),
{
    if s.len() > 0 {
        let t = s.drop_last();
        assert forall|j: int| 0 <= j < t.len() && (#[trigger] t[j]).2.0 == id implies t[j].0 != sec by {
            assert(t[j] == s[j]);
        }
        lemma_section_queries_apart(t, sec, o, id);
        assert(s.last() == s[s.len() - 1]);
        assert forall|k: int| 0 <= k < select(s, sec, o).len() implies (#[trigger] select(s, sec, o)[k]).0 != id by {
            if k < select(t, sec, o).len() {
                assert(select(s, sec, o)[k] == select(t, sec, o)[k]);
            }
        }
    }
}

/// Every item that a query hands out comes from an entry of that section
/// whose user the query takes.
pub proof fn lemma_select_sound(s: Seq<SectionEntryModel>, sec: Section, o: Owner)
    ensures
        forall|k: int| 0 <= k < select(s, sec, o).len() ==> exists|j: int| 0 <= j < s.len()
            && (#[trigger] s[j]).0 == sec && owner_takes(o, s[j].1) && s[j].2 == #[trigger] select(s, sec, o)[k],
    decreases s.len(),
{
    if s.len() > 0 {
        let t = s.drop_last();
        lemma_select_sound(t, sec, o);
        assert forall|k: int| 0 <= k < select(s, sec, o).len() implies exists|j: int| 0 <= j < s.len()
            && (#[trigger] s[j]).0 == sec && owner_takes(o, s[j].1) && s[j].2 == #[trigger] select(s, sec, o)[k] by {
            if k < select(t, sec, o).len() {
                let j = choose|j: int| 0 <= j < t.len() && (#[trigger] t[j]).0 == sec && owner_takes(o, t[j].1) && t[j].2 == #[trigger] select(t, sec, o)[k];
                assert(s[j] == t[j]);
            } else {
                assert(s[s.len() - 1] == s.last());
            }
        }
    }
}

} // verus!
