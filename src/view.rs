use vstd::prelude::*;
use crate::field::{OptionEntry, TypeOptionData};

verus! {

/// How a view lays out its rows.
#[derive(PartialEq, Eq, Structural, Clone, Copy, Debug)]
pub enum Layout {
    Grid,
    Board,
    Calendar,
}

impl Default for Layout {
    fn default() -> (r: Self)
        ensures
            r == Layout::Grid,
    {
        Layout::Grid
    }
}

/// The number under which a layout is stored.
pub open spec fn layout_code(l: Layout) -> i64 {
    match l {
        Layout::Grid => 0,
        Layout::Board => 1,
        Layout::Calendar => 2,
    }
}

impl Layout {
    /// The layout stored under `value`; none for a number that names no layout.
    pub fn from_i64(value: i64) -> (r: Option<Layout>)
        ensures
            r matches Some(l) ==> layout_code(l) == value,
            r is None ==> forall|l: Layout| layout_code(l) != value,
    {
        if value == 0 {
            Some(Layout::Grid)
        } else if value == 1 {
            Some(Layout::Board)
        } else if value == 2 {
            Some(Layout::Calendar)
        } else {
            None
        }
    }

    pub fn to_i64(&self) -> (r: i64)
        ensures
            r == layout_code(*self),
    {
        match self {
            Layout::Grid => 0,
            Layout::Board => 1,
            Layout::Calendar => 2,
        }
    }
}

pub type FilterModel = (Seq<char>, Seq<char>, i64, i64, Seq<char>);

/// A condition on the rows that a view shows.
pub struct Filter {
    pub id: String,
    pub field_id: String,
    pub field_type: i64,
    pub condition: i64,
    pub content: String,
}

impl View for Filter {
    type V = FilterModel;

    open spec fn view(&self) -> FilterModel {
        (self.id@, self.field_id@, self.field_type, self.condition, self.content@)
    }
}

impl Clone for Filter {
    fn clone(&self) -> (r: Self)
        ensures
            r@ == self@,
    {
        Filter {
            id: self.id.clone(),
            field_id: self.field_id.clone(),
            field_type: self.field_type,
            condition: self.condition,
            content: self.content.clone(),
        }
    }
}

pub type GroupItemModel = (Seq<char>, Seq<char>, bool);

/// One group of a grouping.
pub struct GroupItem {
    pub id: String,
    pub name: String,
    pub visible: bool,
}

impl View for GroupItem {
    type V = GroupItemModel;

    open spec fn view(&self) -> GroupItemModel {
        (self.id@, self.name@, self.visible)
    }
}

impl Clone for GroupItem {
    fn clone(&self) -> (r: Self)
        ensures
            r@ == self@,
    {
        GroupItem { id: self.id.clone(), name: self.name.clone(), visible: self.visible }
    }
}

pub type GroupModel = (Seq<char>, Seq<char>, i64, Seq<GroupItemModel>, Seq<char>);

/// A grouping of the rows of a view by one field, with its ordered groups.
pub struct Group {
    pub id: String,
    pub field_id: String,
    pub field_type: i64,
    pub items: Vec<GroupItem>,
    pub content: String,
}

impl View for Group {
    type V = GroupModel;

    open spec fn view(&self) -> GroupModel {
        (self.id@, self.field_id@, self.field_type, self.items@.map_values(|g: GroupItem| g@), self.content@)
    }
}

impl Clone for Group {
    fn clone(&self) -> (r: Self)
        ensures
            r@ == self@,
    {
        let items = self.items.clone();
        assert(items@.map_values(|g: GroupItem| g@) =~= self.items@.map_values(|g: GroupItem| g@));
        Group {
            id: self.id.clone(),
            field_id: self.field_id.clone(),
            field_type: self.field_type,
            items,
            content: self.content.clone(),
        }
    }
}

pub type LayoutSettingModel = (Layout, Seq<OptionEntry>);

/// The settings of a view for one layout.
pub struct LayoutSetting {
    pub layout: Layout,
    pub data: TypeOptionData,
}

impl View for LayoutSetting {
    type V = LayoutSettingModel;

    open spec fn view(&self) -> LayoutSettingModel {
        (self.layout, self.data@)
    }
}

impl Clone for LayoutSetting {
    fn clone(&self) -> (r: Self)
        ensures
            r@ == self@,
    {
        LayoutSetting { layout: self.layout, data: self.data.clone() }
    }
}

pub type RowOrderModel = (Seq<char>, i32);

/// A row as a view orders it: its id and its height.
pub struct RowOrder {
    pub id: String,
    pub height: i32,
}

impl View for RowOrder {
    type V = RowOrderModel;

    open spec fn view(&self) -> RowOrderModel {
        (self.id@, self.height)
    }
}

impl Clone for RowOrder {
    fn clone(&self) -> (r: Self)
        ensures
            r@ == self@,
    {
        RowOrder { id: self.id.clone(), height: self.height }
    }
}

/// A field as a view orders it.
pub struct FieldOrder {
    pub id: String,
}

impl View for FieldOrder {
    type V = Seq<char>;

    open spec fn view(&self) -> Seq<char> {
        self.id@
    }
}

impl Clone for FieldOrder {
    fn clone(&self) -> (r: Self)
        ensures
            r@ == self@,
    {
        FieldOrder { id: self.id.clone() }
    }
}

pub open spec fn filters_model(v: Seq<Filter>) -> Seq<FilterModel> {
    v.map_values(|f: Filter| f@)
}

pub open spec fn groups_model(v: Seq<Group>) -> Seq<GroupModel> {
    v.map_values(|g: Group| g@)
}

pub open spec fn settings_model(v: Seq<LayoutSetting>) -> Seq<LayoutSettingModel> {
    v.map_values(|s: LayoutSetting| s@)
}

pub open spec fn row_orders_model(v: Seq<RowOrder>) -> Seq<RowOrderModel> {
    v.map_values(|r: RowOrder| r@)
}

pub open spec fn field_orders_model(v: Seq<FieldOrder>) -> Seq<Seq<char>> {
    v.map_values(|f: FieldOrder| f@)
}

/// A database view as the contracts speak of it.
pub struct ViewModel {
    pub id: Seq<char>,
    pub name: Seq<char>,
    pub layout: Layout,
    pub filters: Seq<FilterModel>,
    pub groups: Seq<GroupModel>,
    pub layout_settings: Seq<LayoutSettingModel>,
    pub row_orders: Seq<RowOrderModel>,
    pub field_orders: Seq<Seq<char>>,
}

/// A named presentation of a database: its layout, the order of its rows
/// and fields, its filters, groups and layout settings.
pub struct DatabaseView {
    pub id: String,
    pub name: String,
    pub layout: Layout,
    pub filters: Vec<Filter>,
    pub groups: Vec<Group>,
    pub layout_settings: Vec<LayoutSetting>,
    pub row_orders: Vec<RowOrder>,
    pub field_orders: Vec<FieldOrder>,
}

impl View for DatabaseView {
    type V = ViewModel;

    open spec fn view(&self) -> ViewModel {
        ViewModel {
            id: self.id@,
            name: self.name@,
            layout: self.layout,
            filters: filters_model(self.filters@),
            groups: groups_model(self.groups@),
            layout_settings: settings_model(self.layout_settings@),
            row_orders: row_orders_model(self.row_orders@),
            field_orders: field_orders_model(self.field_orders@),
        }
    }
}

pub fn copy_filters(v: &Vec<Filter>) -> (r: Vec<Filter>)
    ensures
        filters_model(r@) == filters_model(v@),
{
    let r = v.clone();
    assert(filters_model(r@) =~= filters_model(v@));
    r
}

pub fn copy_groups(v: &Vec<Group>) -> (r: Vec<Group>)
    ensures
        groups_model(r@) == groups_model(v@),
{
    let r = v.clone();
    assert(groups_model(r@) =~= groups_model(v@));
    r
}

pub fn copy_settings(v: &Vec<LayoutSetting>) -> (r: Vec<LayoutSetting>)
    ensures
        settings_model(r@) == settings_model(v@),
{
    let r = v.clone();
    assert(settings_model(r@) =~= settings_model(v@));
    r
}

pub fn copy_row_orders(v: &Vec<RowOrder>) -> (r: Vec<RowOrder>)
    ensures
        row_orders_model(r@) == row_orders_model(v@),
{
    let r = v.clone();
    assert(row_orders_model(r@) =~= row_orders_model(v@));
    r
}

pub fn copy_field_orders(v: &Vec<FieldOrder>) -> (r: Vec<FieldOrder>)
    ensures
        field_orders_model(r@) == field_orders_model(v@),
{
    let r = v.clone();
    assert(field_orders_model(r@) =~= field_orders_model(v@));
    r
}

impl Clone for DatabaseView {
    fn clone(&self) -> (r: Self)
        ensures
            r@ == self@,
    {
        DatabaseView {
            id: self.id.clone(),
            name: self.name.clone(),
            layout: self.layout,
            filters: copy_filters(&self.filters),
            groups: copy_groups(&self.groups),
            layout_settings: copy_settings(&self.layout_settings),
            row_orders: copy_row_orders(&self.row_orders),
            field_orders: copy_field_orders(&self.field_orders),
        }
    }
}

/// What a caller gives to create a view.
pub struct CreateViewParams {
    pub view_id: String,
    pub name: String,
    pub layout: Layout,
    pub filters: Vec<Filter>,
    pub groups: Vec<Group>,
    pub layout_settings: Vec<LayoutSetting>,
}

/// The parameters of a new view as the contracts speak of them.
pub struct ParamsModel {
    pub view_id: Seq<char>,
    pub name: Seq<char>,
    pub layout: Layout,
    pub filters: Seq<FilterModel>,
    pub groups: Seq<GroupModel>,
    pub layout_settings: Seq<LayoutSettingModel>,
}

impl View for CreateViewParams {
    type V = ParamsModel;

    open spec fn view(&self) -> ParamsModel {
        ParamsModel {
            view_id: self.view_id@,
            name: self.name@,
            layout: self.layout,
            filters: filters_model(self.filters@),
            groups: groups_model(self.groups@),
            layout_settings: settings_model(self.layout_settings@),
        }
    }
}

impl Default for CreateViewParams {
    fn default() -> (r: Self)
        ensures
            r@ == (ParamsModel {
                view_id: Seq::empty(),
                name: Seq::empty(),
                layout: Layout::Grid,
                filters: Seq::empty(),
                groups: Seq::empty(),
                layout_settings: Seq::empty(),
            }),
    {
        let r = CreateViewParams {
            view_id: String::new(),
            name: String::new(),
            layout: Layout::Grid,
            filters: Vec::new(),
            groups: Vec::new(),
            layout_settings: Vec::new(),
        };
        assert(filters_model(r.filters@) =~= Seq::empty());
        assert(groups_model(r.groups@) =~= Seq::empty());
        assert(settings_model(r.layout_settings@) =~= Seq::empty());
        r
    }
}

/// Whether the scalar fields of `v` are those that `p` gives.
pub open spec fn has_params(v: ViewModel, p: ParamsModel) -> bool {
    &&& v.id == p.view_id
    &&& v.name == p.name
    &&& v.layout == p.layout
    &&& v.filters == p.filters
    &&& v.groups == p.groups
    &&& v.layout_settings == p.layout_settings
}

/// The view that `p` describes, with the given row and field orders.
pub open spec fn view_from_params(p: ParamsModel, rows: Seq<RowOrderModel>, fields: Seq<Seq<char>>) -> ViewModel {
    ViewModel {
        id: p.view_id,
        name: p.name,
        layout: p.layout,
        filters: p.filters,
        groups: p.groups,
        layout_settings: p.layout_settings,
        row_orders: rows,
        field_orders: fields,
    }
}

/// `v` with the scalar fields that `p` gives, its orders kept.
pub open spec fn overwrite_params(v: ViewModel, p: ParamsModel) -> ViewModel {
    ViewModel { row_orders: v.row_orders, field_orders: v.field_orders, ..view_from_params(p, v.row_orders, v.field_orders) }
}

impl DatabaseView {
    /// A view made from `params`, with the given row and field orders.
    pub fn from_params(params: CreateViewParams, row_orders: Vec<RowOrder>, field_orders: Vec<FieldOrder>) -> (r: Self)
        ensures
            r@ == view_from_params(params@, row_orders_model(row_orders@), field_orders_model(field_orders@)),
    {
        DatabaseView {
            id: params.view_id,
            name: params.name,
            layout: params.layout,
            filters: params.filters,
            groups: params.groups,
            layout_settings: params.layout_settings,
            row_orders,
            field_orders,
        }
    }

    /// Writes the scalar fields of `params` over this view; its row and field
    /// orders stay.
    pub fn apply_params(&mut self, params: CreateViewParams)
        ensures
            final(self)@ == overwrite_params(old(self)@, params@),
    {
        self.id = params.view_id;
        self.name = params.name;
        self.layout = params.layout;
        self.filters = params.filters;
        self.groups = params.groups;
        self.layout_settings = params.layout_settings;
    }
}

} // verus!
