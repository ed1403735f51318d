use vstd::prelude::*;
use vstd::string::StringExecFns;
use crate::field::Field;
use crate::keyed::{
    key_index, lemma_absent_key, lemma_key_index, lemma_key_index_is, lemma_removed_key_absent,
    lemma_unique_keys_kept, lemma_update_keeps_keys, unique_keys, value_of,
};
use crate::view::{
    field_orders_model, overwrite_params, row_orders_model, view_from_params, CreateViewParams,
    DatabaseView, FieldOrder, ParamsModel, RowOrder, RowOrderModel, ViewModel, has_params,
};

verus! {

pub type ViewsModel = Seq<(Seq<char>, ViewModel)>;

/// The views after `create_view(p)`: a view with that id gets the scalar
/// fields of `p` and keeps its orders; otherwise a new view is appended with
/// the given orders.
pub open spec fn created(s: ViewsModel, p: ParamsModel, rows: Seq<RowOrderModel>, fields: Seq<Seq<char>>) -> ViewsModel {
    let i = key_index(s, p.view_id);
    if i >= 0 {
        s.update(i, (p.view_id, overwrite_params(s[i].1, p)))
    } else {
        s.push((p.view_id, view_from_params(p, rows, fields)))
    }
}

/// The views without the one whose id is `id`.
pub open spec fn deleted(s: ViewsModel, id: Seq<char>) -> ViewsModel {
    let i = key_index(s, id);
    if i >= 0 { s.remove(i) } else { s }
}

/// Every view with `r` appended to its row order.
pub open spec fn with_row(s: ViewsModel, r: RowOrderModel) -> ViewsModel {
    s.map_values(|e: (Seq<char>, ViewModel)| (e.0, ViewModel { row_orders: e.1.row_orders.push(r), ..e.1 }))
}

/// Every view with `rs` appended to its row order, one after the other.
pub open spec fn with_rows(s: ViewsModel, rs: Seq<RowOrderModel>) -> ViewsModel
    decreases rs.len(),
{
    if rs.len() == 0 {
        s
    } else {
        with_row(with_rows(s, rs.drop_last()), rs.last())
    }
}

/// Every view with `f` appended to its field order.
pub open spec fn with_field(s: ViewsModel, f: Seq<char>) -> ViewsModel {
    s.map_values(|e: (Seq<char>, ViewModel)| (e.0, ViewModel { field_orders: e.1.field_orders.push(f), ..e.1 }))
}

/// The views of a database.
pub struct DatabaseViews {
    pub views: Vec<DatabaseView>,
}

impl View for DatabaseViews {
    type V = ViewsModel;

    open spec fn view(&self) -> ViewsModel {
        self.views@.map_values(|v: DatabaseView| (v.id@, v@))
    }
}

impl DatabaseViews {
    /// No two views share an id.
    pub open spec fn wf(&self) -> bool {
        unique_keys(self@)
    }

    pub fn new() -> (r: Self)
        ensures
            r@ == ViewsModel::empty(),
            r.wf(),
    {
        let r = DatabaseViews { views: Vec::new() };
        assert(r@ =~= ViewsModel::empty());
        r
    }

    fn find(&self, view_id: &str) -> (r: Option<usize>)
        ensures
            r matches Some(i) ==> i == key_index(self@, view_id@) && i < self@.len()
                && i < self.views@.len() && self@[i as int].0 == view_id@,
            r is None ==> key_index(self@, view_id@) < 0,
    {
        proof { lemma_key_index(self@, view_id@); }
        let mut i: usize = 0;
        while i < self.views.len()
            invariant
                0 <= i <= self@.len(),
                self@.len() == self.views@.len(),
                forall|j: int| 0 <= j < i ==> self@[j].0 != view_id@,
            decreases self@.len() - i,
        {
            assert(self@[i as int].0 == self.views@[i as int].id@);
            if crate::same_text(self.views[i].id.as_str(), view_id) {
                proof { lemma_key_index_is(self@, view_id@, i as int); }
                return Some(i);
            }
            i = i + 1;
        }
        None
    }

    /// A copy of the view with id `view_id`.
    pub fn get_view(&self, view_id: &str) -> (r: Option<DatabaseView>)
        ensures
            r is Some <==> value_of(self@, view_id@) is Some,
            r matches Some(v) ==> value_of(self@, view_id@) == Some(v@),
    {
        match self.find(view_id) {
            Some(i) => Some(self.views[i].clone()),
            None => None,
        }
    }

    /// Copies of all views, in order.
    pub fn get_all_views(&self) -> (r: Vec<DatabaseView>)
        ensures
            r@.len() == self@.len(),
            forall|j: int| 0 <= j < r@.len() ==> (#[trigger] r@[j])@ == self@[j].1,
    {
        let r = self.views.clone();
        r
    }

    /// Creates the view that `params` describes, with the given orders. A
    /// view of the same id gets the new scalar fields and keeps its orders.
    pub fn create_view(&mut self, params: CreateViewParams, row_orders: Vec<RowOrder>, field_orders: Vec<FieldOrder>)
        requires
            old(self).wf(),
        ensures
            final(self).wf(),
            final(self)@ == created(old(self)@, params@, row_orders_model(row_orders@), field_orders_model(field_orders@)),
    {
        let ghost p = params@;
        match self.find(params.view_id.as_str()) {
            Some(i) => {
                let mut v = self.views.remove(i);
                v.apply_params(params);
                self.views.insert(i, v);
                proof {
                    assert(self@ =~= old(self)@.update(i as int, (p.view_id, overwrite_params(old(self)@[i as int].1, p))));
                    lemma_unique_keys_kept(old(self)@, i as int, (p.view_id, overwrite_params(old(self)@[i as int].1, p)));
                }
            },
            None => {
                let v = DatabaseView::from_params(params, row_orders, field_orders);
                self.views.push(v);
                proof {
                    assert(self@ =~= old(self)@.push((p.view_id, view_from_params(p, row_orders_model(row_orders@), field_orders_model(field_orders@)))));
                    lemma_unique_keys_kept(old(self)@, 0, (p.view_id, view_from_params(p, row_orders_model(row_orders@), field_orders_model(field_orders@))));
                }
            },
        }
    }

    /// Removes the view with id `view_id`; nothing when there is none.
    pub fn delete_view(&mut self, view_id: &str)
        requires
            old(self).wf(),
        ensures
            final(self).wf(),
            final(self)@ == deleted(old(self)@, view_id@),
    {
        if let Some(i) = self.find(view_id) {
            self.views.remove(i);
            proof {
                assert(self@ =~= old(self)@.remove(i as int));
                lemma_unique_keys_kept(old(self)@, i as int, old(self)@[i as int]);
            }
        }
    }

    /// An id that no view has: `base` followed by enough `~` to be longer
    /// than every id there is.
    fn fresh_view_id(&self, base: &str) -> (r: String)
        ensures
            key_index(self@, r@) < 0,
    {
        let mut longest: usize = 0;
        let mut i: usize = 0;
        while i < self.views.len()
            invariant
                0 <= i <= self@.len(),
                self@.len() == self.views@.len(),
                forall|j: int| 0 <= j < i ==> self@[j].0.len() <= longest,
            decreases self@.len() - i,
        {
            assert(self@[i as int].0 == self.views@[i as int].id@);
            let n = self.views[i].id.unicode_len();
            if n > longest {
                longest = n;
            }
            i = i + 1;
        }
        let mut candidate = base.to_owned();
        while self.find(candidate.as_str()).is_some()
            invariant
                self@.len() == self.views@.len(),
                forall|j: int| 0 <= j < self@.len() ==> self@[j].0.len() <= longest,
            decreases longest + 1 - candidate@.len(),
        {
            proof {
                lemma_key_index(self@, candidate@);
            }
            candidate.append("~");
            proof {
                reveal_strlit("~");
            }
        }
        candidate
    }

    /// Copies the view `view_id` under the id `new_view_id`: its scalar fields
    /// and its row and field orders, as lists of their own. None when there is
    /// no such view or a view has the new id already.
    pub fn duplicate_view_as(&mut self, view_id: &str, new_view_id: String) -> (r: Option<DatabaseView>)
        requires
            old(self).wf(),
        ensures
            final(self).wf(),
            r is Some <==> (value_of(old(self)@, view_id@) is Some && value_of(old(self)@, new_view_id@) is None),
            r is None ==> final(self)@ == old(self)@,
            r matches Some(v) ==> v@ == (ViewModel { id: new_view_id@, ..value_of(old(self)@, view_id@)->Some_0 })
                && final(self)@ == old(self)@.push((new_view_id@, v@)),
    {
        proof {
            lemma_key_index(self@, view_id@);
            lemma_key_index(self@, new_view_id@);
        }
        let i = match self.find(view_id) {
            Some(i) => i,
            None => return None,
        };
        if self.find(new_view_id.as_str()).is_some() {
            return None;
        }
        let mut copy = self.views[i].clone();
        copy.id = new_view_id;
        let r = copy.clone();
        let ghost e = (copy.id@, copy@);
        self.views.push(copy);
        proof {
            assert(self@ =~= old(self)@.push(e));
            lemma_unique_keys_kept(old(self)@, 0, e);
        }
        Some(r)
    }

    /// Copies the view `view_id` under an id that no view has.
    pub fn duplicate_view(&mut self, view_id: &str) -> (r: Option<DatabaseView>)
        requires
            old(self).wf(),
        ensures
            final(self).wf(),
            r is Some <==> value_of(old(self)@, view_id@) is Some,
            r is None ==> final(self)@ == old(self)@,
            r matches Some(v) ==> value_of(old(self)@, v.id@) is None
                && v@ == (ViewModel { id: v.id@, ..value_of(old(self)@, view_id@)->Some_0 })
                && final(self)@ == old(self)@.push((v.id@, v@)),
    {
        let new_id = self.fresh_view_id(view_id);
        proof {
            lemma_key_index(self@, new_id@);
        }
        self.duplicate_view_as(view_id, new_id)
    }

    /// Appends `row` to the row order of every view.
    pub fn push_row_order(&mut self, row: &RowOrder)
        requires
            old(self).wf(),
        ensures
            final(self).wf(),
            final(self)@ == with_row(old(self)@, row@),
    {
        let n = self.views.len();
        let mut i: usize = 0;
        while i < n
            invariant
                0 <= i <= n,
                n == old(self).views@.len(),
                self.views@.len() == n,
                forall|j: int| 0 <= j < i ==> #[trigger] self@[j] == with_row(old(self)@, row@)[j],
                forall|j: int| i <= j < n ==> #[trigger] self@[j] == old(self)@[j],
            decreases n - i,
        {
            let ghost prev = self@;
            let ghost prevv = self.views@;
            let mut v = self.views.remove(i);
            assert(v@ == prev[i as int].1 && v.id@ == prev[i as int].0);
            let ghost before = row_orders_model(v.row_orders@);
            v.row_orders.push(row.clone());
            assert(row_orders_model(v.row_orders@) =~= before.push(row@));
            let ghost vv = v;
            assert(vv@ == with_row(old(self)@, row@)[i as int].1);
            self.views.insert(i, v);
            assert(self.views@ =~= prevv.update(i as int, vv));
            assert(self@ =~= prev.update(i as int, with_row(old(self)@, row@)[i as int]));
            i = i + 1;
        }
        assert(self@ =~= with_row(old(self)@, row@));
        assert forall|a: int, b: int| 0 <= a < self@.len() && 0 <= b < self@.len() && #[trigger] self@[a].0 == #[trigger] self@[b].0 implies a == b by {
            assert(self@[a].0 == old(self)@[a].0);
            assert(self@[b].0 == old(self)@[b].0);
        }
    }

    /// Appends `field` to the field order of every view.
    pub fn push_field_order(&mut self, field: &FieldOrder)
        requires
            old(self).wf(),
        ensures
            final(self).wf(),
            final(self)@ == with_field(old(self)@, field@),
    {
        let n = self.views.len();
        let mut i: usize = 0;
        while i < n
            invariant
                0 <= i <= n,
                n == old(self).views@.len(),
                self.views@.len() == n,
                forall|j: int| 0 <= j < i ==> #[trigger] self@[j] == with_field(old(self)@, field@)[j],
                forall|j: int| i <= j < n ==> #[trigger] self@[j] == old(self)@[j],
            decreases n - i,
        {
            let ghost prev = self@;
            let ghost prevv = self.views@;
            let mut v = self.views.remove(i);
            assert(v@ == prev[i as int].1 && v.id@ == prev[i as int].0);
            let ghost before = field_orders_model(v.field_orders@);
            v.field_orders.push(field.clone());
            assert(field_orders_model(v.field_orders@) =~= before.push(field@));
            let ghost vv = v;
            assert(vv@ == with_field(old(self)@, field@)[i as int].1);
            self.views.insert(i, v);
            assert(self.views@ =~= prevv.update(i as int, vv));
            assert(self@ =~= prev.update(i as int, with_field(old(self)@, field@)[i as int]));
            i = i + 1;
        }
        assert(self@ =~= with_field(old(self)@, field@));
        assert forall|a: int, b: int| 0 <= a < self@.len() && 0 <= b < self@.len() && #[trigger] self@[a].0 == #[trigger] self@[b].0 implies a == b by {
            assert(self@[a].0 == old(self)@[a].0);
            assert(self@[b].0 == old(self)@[b].0);
        }
    }
}

/// Default height of a row.
pub const DEFAULT_ROW_HEIGHT: i32 = 60;

/// A row of a database, as far as the views order it.
pub struct Row {
    pub id: String,
    pub height: i32,
    pub visibility: bool,
}

impl Row {
    /// A visible row of the default height.
    pub fn new(id: String) -> (r: Self)
        ensures
            r.id == id,
            r.height == DEFAULT_ROW_HEIGHT,
            r.visibility,
    {
        Row { id, height: DEFAULT_ROW_HEIGHT, visibility: true }
    }

    /// The row as a view orders it.
    pub fn order(&self) -> (r: RowOrder)
        ensures
            r@ == (self.id@, self.height),
    {
        RowOrder { id: self.id.clone(), height: self.height }
    }
}

/// The row order of the given rows.
pub open spec fn orders_of_rows(rows: Seq<Row>) -> Seq<RowOrderModel> {
    rows.map_values(|r: Row| (r.id@, r.height))
}

/// The field order of the given fields.
pub open spec fn orders_of_fields(fields: Seq<Field>) -> Seq<Seq<char>> {
    fields.map_values(|f: Field| f.id@)
}

/// Fields, rows, and the views over them.
pub struct Database {
    pub fields: Vec<Field>,
    pub rows: Vec<Row>,
    pub views: DatabaseViews,
}

impl Database {
    pub open spec fn wf(&self) -> bool {
        self.views.wf()
    }

    /// A database with no field, row or view.
    pub fn new() -> (r: Self)
        ensures
            r.wf(),
            r.fields@.len() == 0,
            r.rows@.len() == 0,
            r.views@.len() == 0,
    {
        Database { fields: Vec::new(), rows: Vec::new(), views: DatabaseViews::new() }
    }

    /// Adds a row; every view orders it last.
    pub fn push_row(&mut self, row: Row)
        requires
            old(self).wf(),
        ensures
            final(self).wf(),
            final(self).rows@ == old(self).rows@.push(row),
            final(self).fields@ == old(self).fields@,
            final(self).views@ == with_row(old(self).views@, (row.id@, row.height)),
    {
        let order = row.order();
        self.views.push_row_order(&order);
        self.rows.push(row);
    }

    /// Adds a field; every view orders it last.
    pub fn insert_field(&mut self, field: Field)
        requires
            old(self).wf(),
        ensures
            final(self).wf(),
            final(self).fields@ == old(self).fields@.push(field),
            final(self).rows@ == old(self).rows@,
            final(self).views@ == with_field(old(self).views@, field.id@),
    {
        let order = FieldOrder { id: field.id.clone() };
        self.views.push_field_order(&order);
        self.fields.push(field);
    }

    fn row_orders(&self) -> (r: Vec<RowOrder>)
        ensures
            row_orders_model(r@) == orders_of_rows(self.rows@),
    {
        let mut r: Vec<RowOrder> = Vec::new();
        let mut i: usize = 0;
        while i < self.rows.len()
            invariant
                0 <= i <= self.rows@.len(),
                row_orders_model(r@) == orders_of_rows(self.rows@.subrange(0, i as int)),
            decreases self.rows@.len() - i,
        {
            let ghost before = r@;
            r.push(self.rows[i].order());
            assert(row_orders_model(r@) =~= row_orders_model(before).push((self.rows@[i as int].id@, self.rows@[i as int].height)));
            assert(orders_of_rows(self.rows@.subrange(0, i + 1)) =~= orders_of_rows(self.rows@.subrange(0, i as int)).push((self.rows@[i as int].id@, self.rows@[i as int].height)));
            i = i + 1;
        }
        assert(self.rows@.subrange(0, i as int) =~= self.rows@);
        r
    }

    fn field_orders(&self) -> (r: Vec<FieldOrder>)
        ensures
            field_orders_model(r@) == orders_of_fields(self.fields@),
    {
        let mut r: Vec<FieldOrder> = Vec::new();
        let mut i: usize = 0;
        while i < self.fields.len()
            invariant
                0 <= i <= self.fields@.len(),
                field_orders_model(r@) == orders_of_fields(self.fields@.subrange(0, i as int)),
            decreases self.fields@.len() - i,
        {
            let ghost before = r@;
            r.push(FieldOrder { id: self.fields[i].id.clone() });
            assert(field_orders_model(r@) =~= field_orders_model(before).push(self.fields@[i as int].id@));
            assert(orders_of_fields(self.fields@.subrange(0, i + 1)) =~= orders_of_fields(self.fields@.subrange(0, i as int)).push(self.fields@[i as int].id@));
            i = i + 1;
        }
        assert(self.fields@.subrange(0, i as int) =~= self.fields@);
        r
    }

    /// Creates the view that `params` describes. A new view orders the rows
    /// and fields as the database holds them now; a view of the same id gets
    /// the new scalar fields and keeps its orders.
    pub fn create_view(&mut self, params: CreateViewParams)
        requires
            old(self).wf(),
        ensures
            final(self).wf(),
            final(self).rows@ == old(self).rows@,
            final(self).fields@ == old(self).fields@,
            final(self).views@ == created(old(self).views@, params@, orders_of_rows(old(self).rows@), orders_of_fields(old(self).fields@)),
    {
        let rows = self.row_orders();
        let fields = self.field_orders();
        self.views.create_view(params, rows, fields);
    }

    /// Copies the view `view_id` under a new id; see
    /// `DatabaseViews::duplicate_view`.
    pub fn duplicate_view(&mut self, view_id: &str) -> (r: Option<DatabaseView>)
        requires
            old(self).wf(),
        ensures
            final(self).wf(),
            final(self).rows@ == old(self).rows@,
            final(self).fields@ == old(self).fields@,
            r is Some <==> value_of(old(self).views@, view_id@) is Some,
            r is None ==> final(self).views@ == old(self).views@,
            r matches Some(v) ==> value_of(old(self).views@, v.id@) is None
                && v@ == (ViewModel { id: v.id@, ..value_of(old(self).views@, view_id@)->Some_0 })
                && final(self).views@ == old(self).views@.push((v.id@, v@)),
    {
        self.views.duplicate_view(view_id)
    }
}

/// `created` keeps the ids unique.
pub proof fn lemma_created_unique(s: ViewsModel, p: ParamsModel, rows: Seq<RowOrderModel>, fields: Seq<Seq<char>>)
    requires
        unique_keys(s),
    ensures
        unique_keys(created(s, p, rows, fields)),
{
    let i = key_index(s, p.view_id);
    lemma_key_index(s, p.view_id);
    if i >= 0 {
        lemma_unique_keys_kept(s, i, (p.view_id, overwrite_params(s[i].1, p)));
    } else {
        lemma_unique_keys_kept(s, 0, (p.view_id, view_from_params(p, rows, fields)));
    }
}

/// After `create_view`, the view of that id has exactly the scalar fields
/// given. An existing view keeps its row and field orders; a new one has the
/// orders it was seeded with.
pub proof fn lemma_create_view_then_get(s: ViewsModel, p: ParamsModel, rows: Seq<RowOrderModel>, fields: Seq<Seq<char>>)
    requires
        unique_keys(s),
    ensures
        value_of(created(s, p, rows, fields), p.view_id) matches Some(v) && has_params(v, p),
        value_of(s, p.view_id) matches Some(w) ==> value_of(created(s, p, rows, fields), p.view_id)->Some_0.row_orders == w.row_orders
            && value_of(created(s, p, rows, fields), p.view_id)->Some_0.field_orders == w.field_orders,
        value_of(s, p.view_id) is None ==> value_of(created(s, p, rows, fields), p.view_id)->Some_0.row_orders == rows
            && value_of(created(s, p, rows, fields), p.view_id)->Some_0.field_orders == fields,
{
    let i = key_index(s, p.view_id);
    lemma_key_index(s, p.view_id);
    if i >= 0 {
        let e = (p.view_id, overwrite_params(s[i].1, p));
        lemma_update_keeps_keys(s, i, e);
        assert(key_index(s.update(i, e), p.view_id) == i);
    } else {
        let e = (p.view_id, view_from_params(p, rows, fields));
        lemma_absent_key(s, p.view_id);
        lemma_key_index_is(s.push(e), p.view_id, s.len() as int);
    }
}

/// Creating a view twice under one id leaves the view with the scalar fields
/// of the second call, and with the row and field orders it had after the
/// first.
pub proof fn lemma_create_view_twice(
    s: ViewsModel,
    p: ParamsModel,
    q: ParamsModel,
    rows: Seq<RowOrderModel>,
    fields: Seq<Seq<char>>,
    rows2: Seq<RowOrderModel>,
    fields2: Seq<Seq<char>>,
)
    requires
        unique_keys(s),
        p.view_id == q.view_id,
    ensures
        value_of(created(created(s, p, rows, fields), q, rows2, fields2), q.view_id) matches Some(v)
            && has_params(v, q)
            && v.row_orders == value_of(created(s, p, rows, fields), p.view_id)->Some_0.row_orders
            && v.field_orders == value_of(created(s, p, rows, fields), p.view_id)->Some_0.field_orders,
{
    lemma_create_view_then_get(s, p, rows, fields);
    lemma_created_unique(s, p, rows, fields);
    lemma_create_view_then_get(created(s, p, rows, fields), q, rows2, fields2);
}

/// After `delete_view`, no view has that id: looking it up finds nothing.
pub proof fn lemma_delete_view_then_get(s: ViewsModel, id: Seq<char>)
    requires
        unique_keys(s),
    ensures
        value_of(deleted(s, id), id) is None,
        forall|j: int| 0 <= j < deleted(s, id).len() ==> #[trigger] deleted(s, id)[j].0 != id,
{
    lemma_key_index(s, id);
    if key_index(s, id) >= 0 {
        lemma_removed_key_absent(s, id);
    } else {
        lemma_absent_key(s, id);
    }
}

/// Pushing rows one after the other appends them to the row order of every
/// view, in the order they came; a view that had no rows then holds exactly
/// those rows, the last one pushed at its end.
pub proof fn lemma_rows_in_order(s: ViewsModel, rs: Seq<RowOrderModel>)
    ensures
        with_rows(s, rs).len() == s.len(),
        forall|j: int| 0 <= j < s.len() ==> (#[trigger] with_rows(s, rs)[j]).0 == s[j].0
            && with_rows(s, rs)[j].1.row_orders == s[j].1.row_orders + rs,
        forall|j: int| 0 <= j < s.len() && s[j].1.row_orders.len() == 0 ==>
            (#[trigger] with_rows(s, rs)[j]).1.row_orders == rs
            && with_rows(s, rs)[j].1.row_orders.len() == rs.len()
            && (rs.len() > 0 ==> with_rows(s, rs)[j].1.row_orders.last() == rs.last()),
    decreases rs.len(),
{
    if rs.len() > 0 {
        lemma_rows_in_order(s, rs.drop_last());
        let t = with_rows(s, rs.drop_last());
        assert forall|j: int| 0 <= j < s.len() implies (#[trigger] with_rows(s, rs)[j]).0 == s[j].0
            && with_rows(s, rs)[j].1.row_orders == s[j].1.row_orders + rs by {
            assert(t[j].1.row_orders == s[j].1.row_orders + rs.drop_last());
            assert(s[j].1.row_orders + rs.drop_last().push(rs.last()) =~= (s[j].1.row_orders + rs.drop_last()).push(rs.last()));
            assert(rs.drop_last().push(rs.last()) =~= rs);
        }
        assert forall|j: int| 0 <= j < s.len() && s[j].1.row_orders.len() == 0 implies
            (#[trigger] with_rows(s, rs)[j]).1.row_orders == rs by {
            assert(with_rows(s, rs)[j].1.row_orders == s[j].1.row_orders + rs);
            assert(s[j].1.row_orders + rs =~= rs);
        }
    } else {
        assert forall|j: int| 0 <= j < s.len() implies (#[trigger] with_rows(s, rs)[j]).1.row_orders == s[j].1.row_orders + rs by {
            assert(s[j].1.row_orders + rs =~= s[j].1.row_orders);
        }
    }
}

} // verus!
