use collab_model::belongings::{Belongings, BelongingMap, BelongingsArray};
use collab_model::database::{Database, Row};
use collab_model::field::{
    field_from_map_ref, field_from_value, field_id_from_value, Field, FieldBuilder, FieldRecord,
    StoredValue, TypeOption, TypeOptionData, TypeOptions,
};
use collab_model::folder::{Folder, FolderView};
use collab_model::ordered::OrderedList;
use collab_model::section::Section;
use collab_model::url::{Cell, URLCellData, URLTypeOption, URL_FIELD_TYPE};
use collab_model::view::{CreateViewParams, Filter, Layout};

fn ids(v: &[&str]) -> Vec<String> {
    v.iter().map(|s| s.to_string()).collect()
}

fn folder_view(id: &str, parent: &str) -> FolderView {
    FolderView {
        id: id.to_string(),
        parent_view_id: parent.to_string(),
        name: format!("view {}", id),
        desc: String::new(),
        icon: String::new(),
        created_at: 0,
        layout: 0,
        children: vec![],
    }
}

#[test]
fn move_and_move_back_restores_the_list() {
    let start = ids(&["a", "b", "c", "d", "e"]);
    for from in 0..5usize {
        for to in 0..5usize {
            let mut list = OrderedList::from_vec(start.clone());
            list.move_item(from, to);
            list.move_item(to, from);
            assert_eq!(list.as_vec(), &start);
        }
    }
}

#[test]
fn move_removes_then_inserts_in_the_shortened_list() {
    let mut list = OrderedList::from_vec(ids(&["a", "b", "c", "d"]));
    list.move_item(0, 2);
    assert_eq!(list.as_vec(), &ids(&["b", "c", "a", "d"]));
    list.move_item(1, 2);
    assert_eq!(list.as_vec(), &ids(&["b", "a", "c", "d"]));
    list.move_item(3, 0);
    assert_eq!(list.as_vec(), &ids(&["d", "b", "a", "c"]));
}

#[test]
fn out_of_range_move_and_remove_do_nothing() {
    let mut list = OrderedList::from_vec(ids(&["a", "b"]));
    list.move_item(0, 2);
    list.move_item(5, 0);
    list.remove(2);
    assert_eq!(list.as_vec(), &ids(&["a", "b"]));
    list.remove(0);
    assert_eq!(list.as_vec(), &ids(&["b"]));
    list.insert(7, "z".to_string());
    list.insert(0, "y".to_string());
    assert_eq!(list.as_vec(), &ids(&["y", "b", "z"]));
}

#[test]
fn pushed_rows_keep_their_order() {
    let mut database = Database::new();
    database.create_view(CreateViewParams { view_id: "v1".to_string(), ..Default::default() });
    for i in 0..5 {
        database.push_row(Row::new(format!("row{}", i)));
    }
    let view = database.views.get_view("v1").unwrap();
    let got: Vec<String> = view.row_orders.iter().map(|r| r.id.clone()).collect();
    assert_eq!(got, ids(&["row0", "row1", "row2", "row3", "row4"]));
    assert_eq!(view.row_orders.last().unwrap().id, "row4");
    assert_eq!(view.row_orders[0].height, 60);
}

#[test]
fn recreating_a_view_keeps_its_orders() {
    let mut database = Database::new();
    database.push_row(Row::new("r1".to_string()));
    database.create_view(CreateViewParams { view_id: "v1".to_string(), name: "one".to_string(), ..Default::default() });
    database.push_row(Row::new("r2".to_string()));
    database.create_view(CreateViewParams {
        view_id: "v1".to_string(),
        name: "two".to_string(),
        layout: Layout::Board,
        filters: vec![Filter { id: "f".to_string(), field_id: String::new(), field_type: 0, condition: 1, content: String::new() }],
        ..Default::default()
    });
    let all = database.views.get_all_views();
    assert_eq!(all.len(), 1);
    let view = database.views.get_view("v1").unwrap();
    assert_eq!(view.name, "two");
    assert_eq!(view.layout, Layout::Board);
    assert_eq!(view.filters.len(), 1);
    assert_eq!(view.row_orders.len(), 2);
}

#[test]
fn deleted_view_is_gone() {
    let mut database = Database::new();
    database.create_view(CreateViewParams { view_id: "v1".to_string(), ..Default::default() });
    database.create_view(CreateViewParams { view_id: "v2".to_string(), ..Default::default() });
    database.views.delete_view("v1");
    assert!(database.views.get_view("v1").is_none());
    assert!(database.views.get_view("v2").is_some());
    database.views.delete_view("missing");
    assert_eq!(database.views.get_all_views().len(), 1);
}

#[test]
fn duplicated_view_has_own_orders() {
    let mut database = Database::new();
    database.push_row(Row::new("r1".to_string()));
    database.create_view(CreateViewParams { view_id: "v1".to_string(), name: "grid".to_string(), ..Default::default() });
    let copy = database.duplicate_view("v1").unwrap();
    assert_ne!(copy.id, "v1");
    assert_eq!(copy.name, "grid");
    assert_eq!(copy.row_orders.len(), 1);
    assert!(database.duplicate_view("nope").is_none());
    assert!(database.views.duplicate_view_as("v1", "v1".to_string()).is_none());
    assert!(database.views.duplicate_view_as("v1", "v9".to_string()).is_some());
    assert_eq!(database.views.get_all_views().len(), 3);
}

#[test]
fn layout_codes() {
    assert_eq!(Layout::from_i64(0), Some(Layout::Grid));
    assert_eq!(Layout::from_i64(2), Some(Layout::Calendar));
    assert_eq!(Layout::from_i64(3), None);
    assert_eq!(Layout::Board.to_i64(), 1);
}

#[test]
fn field_without_width_decodes_with_defaults() {
    let mut record = FieldRecord::new();
    record.id = Some("f1".to_string());
    record.field_type = Some(2);
    let field = field_from_map_ref(&record).unwrap();
    assert_eq!(field.width, 120);
    assert!(field.visibility);
    assert!(!field.is_primary);
    assert_eq!(field.name, "");
    assert!(field.type_options.entries.is_empty());
}

#[test]
fn field_without_id_or_kind_does_not_decode() {
    let mut record = FieldRecord::new();
    record.field_type = Some(2);
    assert!(field_from_map_ref(&record).is_none());
    let mut record = FieldRecord::new();
    record.id = Some("f1".to_string());
    assert!(field_from_map_ref(&record).is_none());
}

#[test]
fn field_record_round_trip() {
    let mut field = Field::new("f1".to_string(), "name".to_string(), 3, true);
    field.width = 200;
    field.visibility = false;
    let back = field_from_map_ref(&field.to_record()).unwrap();
    assert_eq!(back.id, "f1");
    assert_eq!(back.name, "name");
    assert_eq!(back.field_type, 3);
    assert_eq!(back.width, 200);
    assert!(!back.visibility);
    assert!(back.is_primary);
}

#[test]
fn field_from_stored_values() {
    let record = Field::new("f2".to_string(), "n".to_string(), 1, false).to_record();
    let value = StoredValue::Record(record);
    assert_eq!(field_id_from_value(&value), Some("f2".to_string()));
    assert_eq!(field_from_value(&value).unwrap().field_type, 1);
    assert!(field_from_value(&StoredValue::Text("x".to_string())).is_none());
    assert!(field_id_from_value(&StoredValue::Integer(4)).is_none());
}

#[test]
fn field_builder_and_update() {
    let builder = FieldBuilder::new("f3", FieldRecord::new());
    let mut url_options = TypeOptionData::new();
    url_options.insert("url".to_string(), "https://a.b".to_string());
    let mut options = TypeOptions::new();
    options.insert(URL_FIELD_TYPE.to_string(), url_options);
    let field = builder
        .update()
        .set_name("link".to_string())
        .set_field_type(URL_FIELD_TYPE)
        .set_width(80)
        .set_visibility(false)
        .set_primary(true)
        .set_name_if_not_none(None)
        .set_type_option(options)
        .done()
        .unwrap();
    assert_eq!(field.id, "f3");
    assert_eq!(field.name, "link");
    assert_eq!(field.width, 80);
    assert!(!field.visibility);
    assert!(field.is_primary);
    let data = field.type_options.get("6").unwrap();
    assert_eq!(data.get("url"), Some("https://a.b".to_string()));
}

#[test]
fn type_options_keep_other_kinds() {
    let mut first = TypeOptionData::new();
    first.insert("a".to_string(), "1".to_string());
    let mut options = TypeOptions::new();
    options.insert("0".to_string(), first);
    let mut second = TypeOptionData::new();
    second.insert("b".to_string(), "2".to_string());
    let mut more = TypeOptions::new();
    more.entries.push(TypeOption { field_type: "6".to_string(), data: second });
    options.merge(&more);
    assert_eq!(options.get("0").unwrap().get("a"), Some("1".to_string()));
    assert_eq!(options.get("6").unwrap().get("b"), Some("2".to_string()));
    assert!(options.get("5").is_none());
    let mut data = TypeOptionData::new();
    data.insert("k".to_string(), "old".to_string());
    data.insert("k".to_string(), "new".to_string());
    assert_eq!(data.entries.len(), 1);
    assert_eq!(data.get("k"), Some("new".to_string()));
}

#[test]
fn url_cell_json_and_cells() {
    let cell = URLCellData::new("https://appflowy.io");
    assert_eq!(cell.to_json().ok().unwrap(), "{\"data\":\"https://appflowy.io\"}");
    assert_eq!(URLCellData::new("a\"b").to_string(), "{\"data\":\"a\\\"b\"}");
    assert_eq!(cell.as_str(), "https://appflowy.io");
    let stored: Cell = URLCellData::new("x.y").into_cell();
    assert_eq!(stored.field_type, URL_FIELD_TYPE);
    assert_eq!(URLCellData::from_cell(&stored).data, "x.y");
    let empty = Cell { field_type: URL_FIELD_TYPE, values: TypeOptionData::new() };
    assert_eq!(URLCellData::from_cell(&empty).data, "");
}

#[test]
fn url_type_option_data() {
    let option = URLTypeOption { url: "u".to_string(), content: "c".to_string() };
    let data = option.to_type_option_data();
    assert_eq!(data.get("url"), Some("u".to_string()));
    let back = URLTypeOption::from_type_option_data(&data);
    assert_eq!(back.url, "u");
    assert_eq!(back.content, "c");
    let empty = URLTypeOption::from_type_option_data(&TypeOptionData::new());
    assert_eq!(empty.url, "");
    assert_eq!(empty.stringify_text("t"), "t");
}

#[test]
fn belonging_map_operations() {
    let mut map = BelongingMap::new();
    assert!(map.get_belongings("p").is_none());
    map.move_belonging("p", 0, 1);
    map.delete_belongings("p", 0);
    let array = map.insert_belongings("p", Belongings::new(ids(&["a", "b", "c"])));
    assert_eq!(array.get_belongings().view_ids, ids(&["a", "b", "c"]));
    let again = map.insert_belongings("p", Belongings::new(ids(&["z"])));
    assert_eq!(again.get_belongings().view_ids, ids(&["a", "b", "c"]));
    map.move_belonging("p", 0, 2);
    assert_eq!(map.get_belongings("p").unwrap().get_belongings().view_ids, ids(&["b", "c", "a"]));
    map.delete_belongings("p", 1);
    assert_eq!(map.get_belongings("p").unwrap().get_belongings().view_ids, ids(&["b", "a"]));
    map.delete_belongings("p", 9);
    map.add_belonging("p", "d");
    map.add_belonging("q", "e");
    assert_eq!(map.get_belongings("p").unwrap().get_belongings().view_ids, ids(&["b", "a", "d"]));
    assert_eq!(map.get_belongings("q").unwrap().get_belongings().view_ids, ids(&["e"]));
    map.remove_child("p", "a");
    assert_eq!(map.get_belongings("p").unwrap().get_belongings().view_ids, ids(&["b", "d"]));
}

#[test]
fn belongings_array_operations() {
    let mut slot: Option<BelongingsArray> = None;
    let created = BelongingsArray::get_or_create_with_txn(&mut slot);
    assert!(created.get_belongings().view_ids.is_empty());
    assert!(slot.is_some());
    let mut array = BelongingsArray::from_array(ids(&["a", "b"]));
    array.add_belonging_with_txn("c");
    array.move_belonging_with_txn(2, 0);
    assert_eq!(array.get_belongings().into_inner(), ids(&["c", "a", "b"]));
    array.remove_belonging_with_txn(1);
    assert_eq!(array.get_belongings().view_ids, ids(&["c", "b"]));
}

#[test]
fn nested_views_are_descendants() {
    let mut folder = Folder::new(1, "w".to_string(), 0);
    folder.insert_view(folder_view("r", "w"));
    folder.insert_view(folder_view("p", "r"));
    folder.insert_view(folder_view("c", "p"));
    let found = folder.get_all_descendant_ids("r");
    assert!(found.contains(&"p".to_string()));
    assert!(found.contains(&"c".to_string()));
    let under_w = folder.get_all_descendant_ids("w");
    assert_eq!(under_w, ids(&["r", "p", "c"]));

    folder.delete_view("r");
    assert!(folder.get_view("r").is_none());
    assert!(folder.get_view("c").is_some());
    assert!(folder.get_view("p").is_some());
    assert!(folder.get_views_belong_to("w").is_empty());
    assert_eq!(folder.get_all_descendant_ids("p"), ids(&["c"]));
}

#[test]
fn views_belong_to_parent_in_order() {
    let mut folder = Folder::new(1, "w".to_string(), 0);
    folder.insert_view(folder_view("v1", "w"));
    folder.insert_view(folder_view("v2", "w"));
    let views = folder.get_views_belong_to("w");
    assert_eq!(views.len(), 2);
    assert_eq!(views[0].name, "view v1");
    assert_eq!(views[0].id, "v1");
    assert_eq!(views[1].id, "v2");
    assert_eq!(folder.get_workspace_id(), "w");
}

#[test]
fn favorite_is_not_trash() {
    let mut folder = Folder::new(1, "w".to_string(), 0);
    folder.insert_view(folder_view("v1", "w"));
    folder.insert_view(folder_view("v2", "w"));
    folder.add_section_item(Section::Favorite, "v1", 10);
    folder.add_section_item(Section::Trash, "v2", 11);
    folder.add_section_item(Section::Trash, "v2", 12);
    let trash = folder.get_all_trash_sections();
    assert_eq!(trash.len(), 1);
    assert_eq!(trash[0].id, "v2");
    assert_eq!(trash[0].timestamp, 11);
    assert_eq!(folder.get_my_favorite_sections().len(), 1);
    assert!(folder.get_all_private_sections().is_empty());
    folder.delete_section_item(Section::Trash, "v2");
    assert!(folder.get_all_trash_sections().is_empty());
}

#[test]
fn private_sections_by_owner() {
    let mut mine = Folder::new(1, "w".to_string(), 0);
    mine.add_section_item(Section::Private, "a", 1);
    mine.uid = 2;
    mine.add_section_item(Section::Private, "b", 2);
    mine.uid = 1;
    assert_eq!(mine.get_all_private_sections().len(), 2);
    let my = mine.get_my_private_sections();
    assert_eq!(my.len(), 1);
    assert_eq!(my[0].id, "a");
    let others = mine.get_all_other_private_sections();
    assert_eq!(others.len(), 1);
    assert_eq!(others[0].id, "b");
}

#[test]
fn trash_with_descendants() {
    let mut folder = Folder::new(1, "w".to_string(), 0);
    folder.insert_view(folder_view("a", "w"));
    folder.insert_view(folder_view("b", "a"));
    folder.insert_view(folder_view("c", "b"));
    folder.insert_view(folder_view("d", "w"));
    folder.add_section_item(Section::Trash, "a", 1);
    folder.add_section_item(Section::Favorite, "d", 2);
    assert_eq!(folder.get_all_trash_ids_with_descendants(), ids(&["a", "b", "c"]));
}

fn children(folder: &Folder, id: &str) -> Vec<String> {
    folder.relation.get_belongings(id).unwrap().get_belongings().view_ids
}

fn test_view(id: &str, parent: &str, time: i64) -> FolderView {
    FolderView {
        id: id.to_string(),
        parent_view_id: parent.to_string(),
        name: String::new(),
        desc: String::new(),
        icon: String::new(),
        created_at: time,
        layout: 0,
        children: vec![],
    }
}

#[test]
fn folder_json_serde() {
    let time = 1700000000;
    let folder_test = Folder::new(1, "fake_w_1".to_string(), time);
    assert_eq!(children(&folder_test, "fake_w_1"), Vec::<String>::new());
    let workspace = folder_test.get_view("fake_w_1").unwrap();
    assert_eq!(workspace.parent_view_id, "");
    assert_eq!(workspace.created_at, time);
    assert_eq!(workspace.desc, "");
    assert_eq!(workspace.icon, "");
    assert_eq!(workspace.layout, 0);
    assert_eq!(workspace.name, "");
    assert!(folder_test.get_my_favorite_sections().is_empty());
}

#[test]
fn view_json_serde() {
    let time = 1700000000;
    let mut folder_test = Folder::new(1, "fake_workspace_id".to_string(), time);
    let workspace_id = folder_test.get_workspace_id();
    folder_test.insert_view(test_view("v1", &workspace_id, time));
    folder_test.insert_view(test_view("v2", &workspace_id, time));

    let views = folder_test.get_views_belong_to(&workspace_id);
    assert_eq!(views.len(), 2);
    assert_eq!(children(&folder_test, "fake_workspace_id"), ids(&["v1", "v2"]));
    assert_eq!(children(&folder_test, "v1"), Vec::<String>::new());
    assert_eq!(children(&folder_test, "v2"), Vec::<String>::new());
    let v1 = folder_test.get_view("v1").unwrap();
    assert_eq!(v1.parent_view_id, "fake_workspace_id");
    assert_eq!(v1.created_at, time);
}

#[test]
fn child_view_json_serde() {
    let time = 1700000000;
    let mut folder_test = Folder::new(1, "fake_workspace_id".to_string(), time);
    let workspace_id = folder_test.get_workspace_id();
    folder_test.insert_view(test_view("v1", &workspace_id, time));
    folder_test.insert_view(test_view("v2", &workspace_id, time));
    folder_test.insert_view(test_view("v2.1", "v2", time));
    folder_test.insert_view(test_view("v2.2", "v2", time));

    assert_eq!(children(&folder_test, "fake_workspace_id"), ids(&["v1", "v2"]));
    assert_eq!(children(&folder_test, "v1"), Vec::<String>::new());
    assert_eq!(children(&folder_test, "v2"), ids(&["v2.1", "v2.2"]));
    assert_eq!(children(&folder_test, "v2.1"), Vec::<String>::new());
    assert_eq!(children(&folder_test, "v2.2"), Vec::<String>::new());
    assert_eq!(folder_test.get_view("v2.2").unwrap().parent_view_id, "v2");
}

#[test]
fn inserted_view_keeps_given_children_and_existing_list() {
    let mut folder = Folder::new(1, "w".to_string(), 0);
    let mut v = test_view("v", "w", 0);
    v.children = ids(&["x", "y"]);
    folder.insert_view(v);
    assert_eq!(children(&folder, "v"), ids(&["x", "y"]));
    folder.insert_view(test_view("z", "v", 0));
    folder.insert_view(test_view("v", "w", 5));
    assert_eq!(children(&folder, "v"), ids(&["x", "y", "z"]));
    assert_eq!(folder.get_view("v").unwrap().created_at, 5);
}

#[test]
fn appending_many_ids_keeps_their_order() {
    let mut array = BelongingsArray::from_array(ids(&["a"]));
    array.add_belongings_with_txn(&ids(&["b", "c", "d"]));
    assert_eq!(array.get_belongings_with_txn().view_ids, ids(&["a", "b", "c", "d"]));
    let mut empty = BelongingsArray::from_array(vec![]);
    let many: Vec<String> = (0..50).map(|i| format!("v{}", i)).collect();
    empty.add_belongings_with_txn(&many);
    assert_eq!(empty.get_belongings().view_ids, many);
}
