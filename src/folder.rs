use vstd::prelude::*;
use crate::belongings::{copy_texts, list_or_empty, texts, with_list, BelongingMap, Belongings, RelationView};
use crate::keyed::{
    key_index, keyed_insert, lemma_absent_key, lemma_key_index, lemma_key_index_is,
    lemma_push_keeps_keys, lemma_remove_keeps_keys, lemma_unique_keys_kept, unique_keys, value_of,
};
use crate::ordered::removed;
use crate::section::{select, Owner, Section, SectionItem, SectionMap};
use crate::view_ids::first_index;

verus! {

/// A view of the folder tree.
pub struct FolderView {
    pub id: String,
    pub parent_view_id: String,
    pub name: String,
    pub desc: String,
    pub icon: String,
    pub created_at: i64,
    pub layout: i64,
    /// The ids of the views it holds, in order.
    pub children: Vec<String>,
}

/// A folder view as the contracts speak of it.
pub struct FolderViewModel {
    pub id: Seq<char>,
    pub parent_view_id: Seq<char>,
    pub name: Seq<char>,
    pub desc: Seq<char>,
    pub icon: Seq<char>,
    pub created_at: i64,
    pub layout: i64,
    pub children: Seq<Seq<char>>,
}

impl View for FolderView {
    type V = FolderViewModel;

    open spec fn view(&self) -> FolderViewModel {
        FolderViewModel {
            id: self.id@,
            parent_view_id: self.parent_view_id@,
            name: self.name@,
            desc: self.desc@,
            icon: self.icon@,
            created_at: self.created_at,
            layout: self.layout,
            children: texts(self.children@),
        }
    }
}

impl Clone for FolderView {
    fn clone(&self) -> (r: Self)
        ensures
            r@ == self@,
    {
        FolderView {
            id: self.id.clone(),
            parent_view_id: self.parent_view_id.clone(),
            name: self.name.clone(),
            desc: self.desc.clone(),
            icon: self.icon.clone(),
            created_at: self.created_at,
            layout: self.layout,
            children: copy_texts(&self.children),
        }
    }
}

pub type FolderViewsModel = Seq<(Seq<char>, FolderViewModel)>;

/// The ids of the children of `id`, in order.
pub open spec fn children_of(rel: RelationView, id: Seq<char>) -> Seq<Seq<char>> {
    texts(list_or_empty(value_of(rel, id)))
}

/// The children of each of `ids`, one list after the other.
pub open spec fn next_level(rel: RelationView, ids: Seq<Seq<char>>) -> Seq<Seq<char>>
    decreases ids.len(),
{
    if ids.len() == 0 {
        Seq::empty()
    } else {
        next_level(rel, ids.drop_last()) + children_of(rel, ids.last())
    }
}

/// The views `k` steps below `root`.
pub open spec fn level(rel: RelationView, root: Seq<char>, k: nat) -> Seq<Seq<char>>
    decreases k,
{
    if k == 0 {
        seq![root]
    } else {
        next_level(rel, level(rel, root, (k - 1) as nat))
    }
}

/// The views one to `k` steps below `root`, level by level.
pub open spec fn descendants(rel: RelationView, root: Seq<char>, k: nat) -> Seq<Seq<char>>
    decreases k,
{
    if k == 0 {
        Seq::empty()
    } else {
        descendants(rel, root, (k - 1) as nat) + level(rel, root, k)
    }
}

/// The records of those of `ids` that have one, in order.
pub open spec fn records_of(views: FolderViewsModel, ids: Seq<Seq<char>>) -> Seq<FolderViewModel>
    decreases ids.len(),
{
    if ids.len() == 0 {
        Seq::empty()
    } else {
        let rest = records_of(views, ids.drop_last());
        match value_of(views, ids.last()) {
            Some(v) => rest.push(v),
            None => rest,
        }
    }
}

/// Each of `ids`, followed by the views below it down `k` levels.
pub open spec fn with_descendants(rel: RelationView, ids: Seq<Seq<char>>, k: nat) -> Seq<Seq<char>>
    decreases ids.len(),
{
    if ids.len() == 0 {
        Seq::empty()
    } else {
        with_descendants(rel, ids.drop_last(), k) + seq![ids.last()] + descendants(rel, ids.last(), k)
    }
}

/// The view ids of a list of section items.
pub open spec fn item_ids(items: Seq<(Seq<char>, i64)>) -> Seq<Seq<char>> {
    items.map_values(|i: (Seq<char>, i64)| i.0)
}

/// A workspace: the records of its views, the tree that relates them, and
/// the sections that views are put in.
pub struct Folder {
    pub uid: i64,
    pub workspace_id: String,
    pub views: Vec<FolderView>,
    pub relation: BelongingMap,
    pub sections: SectionMap,
}

impl Folder {
    /// The records keyed by view id.
    pub open spec fn records(&self) -> FolderViewsModel {
        self.views@.map_values(|v: FolderView| (v.id@, v@))
    }

    /// No two records share an id.
    pub open spec fn wf(&self) -> bool {
        unique_keys(self.records())
    }

    /// A folder for the user `uid` that holds the workspace `workspace_id`:
    /// its record, made at `created_at`, and its empty child list.
    pub fn new(uid: i64, workspace_id: String, created_at: i64) -> (r: Self)
        ensures
            r.wf(),
            r.uid == uid,
            r.workspace_id == workspace_id,
            r.records() == seq![(workspace_id@, FolderViewModel {
                id: workspace_id@,
                parent_view_id: Seq::empty(),
                name: Seq::empty(),
                desc: Seq::empty(),
                icon: Seq::empty(),
                created_at,
                layout: 0,
                children: Seq::empty(),
            })],
            r.relation@ == seq![(workspace_id@, Seq::<String>::empty())],
            r.sections@.len() == 0,
    {
        let workspace = FolderView {
            id: workspace_id.clone(),
            parent_view_id: String::new(),
            name: String::new(),
            desc: String::new(),
            icon: String::new(),
            created_at,
            layout: 0,
            children: Vec::new(),
        };
        let mut relation = BelongingMap::new();
        relation.insert_belongings(workspace_id.as_str(), Belongings::new(Vec::new()));
        let mut views: Vec<FolderView> = Vec::new();
        views.push(workspace);
        let r = Folder { uid, workspace_id, views, relation, sections: SectionMap::new() };
        proof {
            assert(texts(Seq::<String>::empty()) =~= Seq::<Seq<char>>::empty());
            assert(r.records() =~= seq![(r.workspace_id@, r.views@[0]@)]);
            assert(r.relation@ =~= seq![(r.workspace_id@, Seq::<String>::empty())]);
        }
        r
    }

    pub fn get_workspace_id(&self) -> (r: String)
        ensures
            r == self.workspace_id,
    {
        self.workspace_id.clone()
    }

    fn find(&self, view_id: &str) -> (r: Option<usize>)
        ensures
            r matches Some(i) ==> i == key_index(self.records(), view_id@) && i < self.views@.len()
                && self.records()[i as int].0 == view_id@,
            r is None ==> key_index(self.records(), view_id@) < 0,
    {
        proof { lemma_key_index(self.records(), view_id@); }
        let mut i: usize = 0;
        while i < self.views.len()
            invariant
                0 <= i <= self.views@.len(),
                self.records().len() == self.views@.len(),
                forall|j: int| 0 <= j < i ==> self.records()[j].0 != view_id@,
            decreases self.views@.len() - i,
        {
            assert(self.records()[i as int].0 == self.views@[i as int].id@);
            if crate::same_text(self.views[i].id.as_str(), view_id) {
                proof { lemma_key_index_is(self.records(), view_id@, i as int); }
                return Some(i);
            }
            i = i + 1;
        }
        None
    }

    /// A copy of the record of `view_id`.
    pub fn get_view(&self, view_id: &str) -> (r: Option<FolderView>)
        ensures
            r is Some <==> value_of(self.records(), view_id@) is Some,
            r matches Some(v) ==> value_of(self.records(), view_id@) == Some(v@),
    {
        match self.find(view_id) {
            Some(i) => Some(self.views[i].clone()),
            None => None,
        }
    }

    /// Writes the record of `view` (in place of one of the same id), appends
    /// its id to the children of its parent, and gives it its own child list:
    /// its `children`, unless it has a list already.
    pub fn insert_view(&mut self, view: FolderView)
        requires
            old(self).wf(),
        ensures
            final(self).wf(),
            final(self).records() == keyed_insert(old(self).records(), (view.id@, view@)),
            final(self).sections@ == old(self).sections@,
            forall|k: Seq<char>| k != view.parent_view_id@ && k != view.id@
                ==> value_of(final(self).relation@, k) == value_of(old(self).relation@, k),
            value_of(final(self).relation@, view.id@) is Some,
            view.parent_view_id@ != view.id@ ==> children_of(final(self).relation@, view.parent_view_id@)
                == children_of(old(self).relation@, view.parent_view_id@).push(view.id@),
            view.parent_view_id@ != view.id@ && value_of(old(self).relation@, view.id@) is Some
                ==> value_of(final(self).relation@, view.id@) == value_of(old(self).relation@, view.id@),
            view.parent_view_id@ != view.id@ && value_of(old(self).relation@, view.id@) is None
                ==> children_of(final(self).relation@, view.id@) == texts(view.children@),
    {
        let ghost old_list = list_or_empty(value_of(self.relation@, view.parent_view_id@));
        self.relation.add_belonging(view.parent_view_id.as_str(), view.id.as_str());
        proof {
            let l = value_of(self.relation@, view.parent_view_id@)->Some_0;
            assert(l =~= old_list.push(l.last()));
            assert(texts(l) =~= texts(old_list).push(view.id@));
        }
        let ghost mid = self.relation@;
        let kids = Belongings::new(copy_texts(&view.children));
        self.relation.insert_belongings(view.id.as_str(), kids);
        proof {
            if value_of(mid, view.id@) is None {
                lemma_push_keeps_keys(mid, (view.id@, view.children@));
            }
        }
        let ghost e = (view.id@, view@);
        proof { lemma_key_index(self.records(), view.id@); }
        match self.find(view.id.as_str()) {
            Some(i) => {
                self.views.set(i, view);
                proof {
                    assert(self.records() =~= old(self).records().update(i as int, e));
                    lemma_unique_keys_kept(old(self).records(), i as int, e);
                }
            },
            None => {
                self.views.push(view);
                proof {
                    assert(self.records() =~= old(self).records().push(e));
                    lemma_unique_keys_kept(old(self).records(), 0, e);
                }
            },
        }
    }

    /// Removes the record of `view_id` and takes the id out of its parent's
    /// children. The records of other views stay, its descendants' among them.
    pub fn delete_view(&mut self, view_id: &str)
        requires
            old(self).wf(),
        ensures
            final(self).wf(),
            value_of(final(self).records(), view_id@) is None,
            forall|k: Seq<char>| k != view_id@ ==> value_of(final(self).records(), k) == value_of(old(self).records(), k),
            final(self).sections@ == old(self).sections@,
            value_of(old(self).records(), view_id@) matches Some(v) ==> final(self).relation@ == with_list(
                old(self).relation@,
                v.parent_view_id,
                removed(list_or_empty(value_of(old(self).relation@, v.parent_view_id)),
                    first_index(list_or_empty(value_of(old(self).relation@, v.parent_view_id)), view_id@)),
            ),
            value_of(old(self).records(), view_id@) is None ==> final(self).relation@ == old(self).relation@,
    {
        proof { lemma_key_index(self.records(), view_id@); }
        match self.find(view_id) {
            Some(i) => {
                let v = self.views.remove(i);
                self.relation.remove_child(v.parent_view_id.as_str(), view_id);
                proof {
                    assert(self.records() =~= old(self).records().remove(i as int));
                    lemma_unique_keys_kept(old(self).records(), i as int, old(self).records()[i as int]);
                    lemma_remove_keeps_keys(old(self).records(), view_id@);
                    crate::keyed::lemma_removed_key_absent(old(self).records(), view_id@);
                }
            },
            None => {
                proof { lemma_absent_key(self.records(), view_id@); }
            },
        }
    }

    /// The records of the children of `parent`, in order; a child without a
    /// record is passed over.
    pub fn get_views_belong_to(&self, parent: &str) -> (r: Vec<FolderView>)
        ensures
            r@.map_values(|v: FolderView| v@) == records_of(self.records(), children_of(self.relation@, parent@)),
    {
        let mut r: Vec<FolderView> = Vec::new();
        match self.relation.get_belongings(parent) {
            None => {
                assert(r@.map_values(|v: FolderView| v@) =~= Seq::<FolderViewModel>::empty());
                assert(children_of(self.relation@, parent@) =~= Seq::<Seq<char>>::empty());
            },
            Some(array) => {
                let ids = array.container.as_vec();
                let ghost cs = children_of(self.relation@, parent@);
                assert(cs == texts(ids@));
                let mut i: usize = 0;
                while i < ids.len()
                    invariant
                        0 <= i <= ids@.len(),
                        cs == texts(ids@),
                        r@.map_values(|v: FolderView| v@) == records_of(self.records(), cs.subrange(0, i as int)),
                    decreases ids@.len() - i,
                {
                    let ghost before = r@.map_values(|v: FolderView| v@);
                    assert(cs.subrange(0, i + 1).drop_last() =~= cs.subrange(0, i as int));
                    assert(cs.subrange(0, i + 1).last() == ids@[i as int]@);
                    match self.get_view(ids[i].as_str()) {
                        Some(v) => {
                            r.push(v);
                            assert(r@.map_values(|v: FolderView| v@) =~= before.push(r@.last()@));
                        },
                        None => {},
                    }
                    i = i + 1;
                }
                assert(cs.subrange(0, i as int) =~= cs);
            },
        }
        r
    }

    /// The children of each of `ids`, one list after the other.
    fn next_level_ids(&self, ids: &Vec<String>) -> (r: Vec<String>)
        ensures
            texts(r@) == next_level(self.relation@, texts(ids@)),
    {
        let mut r: Vec<String> = Vec::new();
        let mut i: usize = 0;
        while i < ids.len()
            invariant
                0 <= i <= ids@.len(),
                texts(r@) == next_level(self.relation@, texts(ids@).subrange(0, i as int)),
            decreases ids@.len() - i,
        {
            let ghost before = r@;
            assert(texts(ids@).subrange(0, i + 1).drop_last() =~= texts(ids@).subrange(0, i as int));
            assert(texts(ids@).subrange(0, i + 1).last() == ids@[i as int]@);
            match self.relation.get_belongings(ids[i].as_str()) {
                Some(array) => {
                    let mut children = array.get_belongings().into_inner();
                    let ghost cs = children@;
                    r.append(&mut children);
                    assert(texts(r@) =~= texts(before) + texts(cs));
                },
                None => {
                    assert(children_of(self.relation@, ids@[i as int]@) =~= Seq::<Seq<char>>::empty());
                    assert(texts(r@) =~= texts(before) + Seq::<Seq<char>>::empty());
                },
            }
            i = i + 1;
        }
        assert(texts(ids@).subrange(0, i as int) =~= texts(ids@));
        r
    }

    /// The ids of the views below `root`, level by level, down as many levels
    /// as there are child lists (enough for every view of a tree).
    pub fn get_all_descendant_ids(&self, root: &str) -> (r: Vec<String>)
        ensures
            texts(r@) == descendants(self.relation@, root@, self.relation@.len()),
    {
        let n = self.relation.container.len();
        let mut frontier: Vec<String> = Vec::new();
        frontier.push(root.to_owned());
        assert(texts(frontier@) =~= seq![root@]);
        let mut r: Vec<String> = Vec::new();
        assert(texts(r@) =~= Seq::<Seq<char>>::empty());
        let mut k: usize = 0;
        while k < n
            invariant
                0 <= k <= n,
                n == self.relation@.len(),
                texts(frontier@) == level(self.relation@, root@, k as nat),
                texts(r@) == descendants(self.relation@, root@, k as nat),
            decreases n - k,
        {
            let next = self.next_level_ids(&frontier);
            let mut more = next.clone();
            assert(more@ =~= next@);
            let ghost before = r@;
            r.append(&mut more);
            assert(texts(r@) =~= texts(before) + texts(next@));
            frontier = next;
            k = k + 1;
        }
        r
    }

    /// The views in the trash, of every user.
    pub fn get_all_trash_sections(&self) -> (r: Vec<SectionItem>)
        ensures
            r@.map_values(|i: SectionItem| i@) == select(self.sections@, Section::Trash, Owner::Anyone),
    {
        self.sections.items(Section::Trash, Owner::Anyone)
    }

    /// The ids of the views in the trash, each followed by the views below it:
    /// what goes when the trash is emptied.
    pub fn get_all_trash_ids_with_descendants(&self) -> (r: Vec<String>)
        ensures
            texts(r@) == with_descendants(
                self.relation@,
                item_ids(select(self.sections@, Section::Trash, Owner::Anyone)),
                self.relation@.len(),
            ),
    {
        let items = self.get_all_trash_sections();
        let ghost ids = item_ids(select(self.sections@, Section::Trash, Owner::Anyone));
        let mut r: Vec<String> = Vec::new();
        let mut i: usize = 0;
        while i < items.len()
            invariant
                0 <= i <= items@.len(),
                items@.map_values(|i: SectionItem| i@) == select(self.sections@, Section::Trash, Owner::Anyone),
                ids == item_ids(select(self.sections@, Section::Trash, Owner::Anyone)),
                texts(r@) == with_descendants(self.relation@, ids.subrange(0, i as int), self.relation@.len()),
            decreases items@.len() - i,
        {
            assert(ids.len() == items@.len());
            assert(ids[i as int] == items@[i as int].id@);
            assert(ids.subrange(0, i + 1).drop_last() =~= ids.subrange(0, i as int));
            let ghost before = r@;
            r.push(items[i].id.clone());
            let mut below = self.get_all_descendant_ids(items[i].id.as_str());
            let ghost b = below@;
            r.append(&mut below);
            assert(texts(r@) =~= texts(before) + seq![items@[i as int].id@] + texts(b));
            i = i + 1;
        }
        assert(ids.subrange(0, i as int) =~= ids);
        r
    }

    /// The favorite views of this folder's user.
    pub fn get_my_favorite_sections(&self) -> (r: Vec<SectionItem>)
        ensures
            r@.map_values(|i: SectionItem| i@) == select(self.sections@, Section::Favorite, Owner::Is(self.uid)),
    {
        self.sections.items(Section::Favorite, Owner::Is(self.uid))
    }

    /// The private views of every user.
    pub fn get_all_private_sections(&self) -> (r: Vec<SectionItem>)
        ensures
            r@.map_values(|i: SectionItem| i@) == select(self.sections@, Section::Private, Owner::Anyone),
    {
        self.sections.items(Section::Private, Owner::Anyone)
    }

    /// The private views of this folder's user.
    pub fn get_my_private_sections(&self) -> (r: Vec<SectionItem>)
        ensures
            r@.map_values(|i: SectionItem| i@) == select(self.sections@, Section::Private, Owner::Is(self.uid)),
    {
        self.sections.items(Section::Private, Owner::Is(self.uid))
    }

    /// The private views of the other users.
    pub fn get_all_other_private_sections(&self) -> (r: Vec<SectionItem>)
        ensures
            r@.map_values(|i: SectionItem| i@) == select(self.sections@, Section::Private, Owner::Not(self.uid)),
    {
        self.sections.items(Section::Private, Owner::Not(self.uid))
    }

    /// Puts the view `view_id` in `section` for this folder's user.
    pub fn add_section_item(&mut self, section: Section, view_id: &str, timestamp: i64)
        ensures
            final(self).uid == old(self).uid,
            final(self).views == old(self).views,
            final(self).relation@ == old(self).relation@,
            crate::section::has_entry(old(self).sections@, section, old(self).uid, view_id@) ==> final(self).sections@ == old(self).sections@,
            !crate::section::has_entry(old(self).sections@, section, old(self).uid, view_id@) ==> final(self).sections@
                == old(self).sections@.push((section, old(self).uid, (view_id@, timestamp))),
    {
        let item = SectionItem { id: view_id.to_owned(), timestamp };
        self.sections.add_section_item(section, self.uid, item);
    }

    /// Takes the view `view_id` out of `section` for this folder's user.
    pub fn delete_section_item(&mut self, section: Section, view_id: &str)
        ensures
            final(self).uid == old(self).uid,
            final(self).views == old(self).views,
            final(self).relation@ == old(self).relation@,
            final(self).sections@ == crate::section::without(old(self).sections@, section, old(self).uid, view_id@),
    {
        self.sections.delete_section_items(section, self.uid, view_id);
    }
}

/// A view two levels below `root` (a child of one of its children) is among
/// its descendants once the traversal goes two levels down.
pub proof fn lemma_grandchild_is_descendant(rel: RelationView, root: Seq<char>, p: Seq<char>, c: Seq<char>, k: nat)
    requires
        children_of(rel, root).contains(p),
        children_of(rel, p).contains(c),
        k >= 2,
    ensures
        descendants(rel, root, k).contains(c),
{
    assert(seq![root][0] == root);
    lemma_next_level_contains(rel, seq![root], root, p);
    assert(level(rel, root, 0) == seq![root]);
    assert(level(rel, root, 1) == next_level(rel, level(rel, root, 0)));
    lemma_next_level_contains(rel, level(rel, root, 1), p, c);
    assert(level(rel, root, 2) == next_level(rel, level(rel, root, 1)));
    lemma_descendants_grow(rel, root, 2, k);
    assert(descendants(rel, root, 2) == descendants(rel, root, 1) + level(rel, root, 2));
    let l2 = level(rel, root, 2);
    let j = choose|j: int| 0 <= j < l2.len() && #[trigger] l2[j] == c;
    assert(descendants(rel, root, 2)[descendants(rel, root, 1).len() + j] == c);
}

/// A child of a child of `root` is among the ids that
/// `get_all_descendant_ids(root)` hands out, whatever else the tree holds.
pub proof fn lemma_grandchild_found(rel: RelationView, root: Seq<char>, p: Seq<char>, c: Seq<char>)
    requires
        children_of(rel, root).contains(p),
        children_of(rel, p).contains(c),
    ensures
        descendants(rel, root, rel.len()).contains(c),
{
    lemma_key_index(rel, root);
    lemma_key_index(rel, p);
    assert(value_of(rel, root) is Some);
    assert(value_of(rel, p) is Some);
    if root != p {
        assert(key_index(rel, root) != key_index(rel, p));
        assert(rel.len() >= 2);
        lemma_grandchild_is_descendant(rel, root, p, c, rel.len());
    } else {
        assert(seq![root][0] == root);
        lemma_next_level_contains(rel, seq![root], root, c);
        assert(level(rel, root, 0) == seq![root]);
        assert(level(rel, root, 1) == next_level(rel, level(rel, root, 0)));
        assert(descendants(rel, root, 0) == Seq::<Seq<char>>::empty());
        assert(descendants(rel, root, 1) =~= level(rel, root, 1));
        lemma_descendants_grow(rel, root, 1, rel.len());
    }
}

/// Every child of an id in `ids` is in the next level.
pub proof fn lemma_next_level_contains(rel: RelationView, ids: Seq<Seq<char>>, p: Seq<char>, c: Seq<char>)
    requires
        ids.contains(p),
        children_of(rel, p).contains(c),
    ensures
        next_level(rel, ids).contains(c),
    decreases ids.len(),
{
    let t = ids.drop_last();
    if ids.last() == p {
        let cs = children_of(rel, p);
        let j = choose|j: int| 0 <= j < cs.len() && #[trigger] cs[j] == c;
        assert(next_level(rel, ids)[next_level(rel, t).len() + j] == c);
    } else {
        let j = choose|j: int| 0 <= j < ids.len() && #[trigger] ids[j] == p;
        assert(j < t.len());
        assert(t[j] == p);
        lemma_next_level_contains(rel, t, p, c);
        let nt = next_level(rel, t);
        let m = choose|m: int| 0 <= m < nt.len() && #[trigger] nt[m] == c;
        assert(next_level(rel, ids)[m] == c);
    }
}

/// Going further down keeps what was found.
pub proof fn lemma_descendants_grow(rel: RelationView, root: Seq<char>, a: nat, b: nat)
    requires
        a <= b,
    ensures
        forall|x: Seq<char>| descendants(rel, root, a).contains(x) ==> descendants(rel, root, b).contains(x),
    decreases b,
{
    if a < b {
        lemma_descendants_grow(rel, root, a, (b - 1) as nat);
        assert forall|x: Seq<char>| descendants(rel, root, (b - 1) as nat).contains(x) implies descendants(rel, root, b).contains(x) by {
            let d = descendants(rel, root, (b - 1) as nat);
            let j = choose|j: int| 0 <= j < d.len() && #[trigger] d[j] == x;
            assert(descendants(rel, root, b)[j] == x);
        }
    }
}

} // verus!
