use collab_model::database::{Database, Row};
use collab_model::field::Field;
use collab_model::field::TypeOptionData;
use collab_model::view::{CreateViewParams, Filter, Group, GroupItem, Layout, LayoutSetting};

fn create_database_with_default_data() -> Database {
    let mut database = Database::new();
    for i in 0..3 {
        database.insert_field(Field::new(format!("f{}", i), format!("field {}", i), 0, i == 0));
    }
    for i in 0..3 {
        database.push_row(Row::new(format!("r{}", i)));
    }
    database
}

fn create_database_grid_view(view_id: &str) -> Database {
    let mut database = create_database_with_default_data();
    database.create_view(CreateViewParams {
        view_id: view_id.to_string(),
        layout: Layout::Grid,
        ..Default::default()
    });
    database
}

#[test]
fn create_database_with_single_view_test() {
    let mut database_test = create_database_with_default_data();
    let params = CreateViewParams {
        view_id: "v1".to_string(),
        name: "my first grid".to_string(),
        layout: Layout::Grid,
        ..Default::default()
    };

    database_test.create_view(params);
    let view = database_test.views.get_view("v1").unwrap();
    assert_eq!(view.row_orders.len(), 3);
    assert_eq!(view.field_orders.len(), 3);
}

#[test]
fn create_same_database_view_twice_test() {
    let mut database_test = create_database_with_default_data();
    let params = CreateViewParams {
        view_id: "v1".to_string(),
        name: "my first grid".to_string(),
        layout: Layout::Grid,
        ..Default::default()
    };
    database_test.create_view(params);

    let params = CreateViewParams {
        view_id: "v1".to_string(),
        name: "my second grid".to_string(),
        layout: Layout::Grid,
        ..Default::default()
    };
    database_test.create_view(params);
    let view = database_test.views.get_view("v1").unwrap();

    assert_eq!(view.name, "my second grid");
}

#[test]
fn create_database_row_test() {
    let mut database_test = create_database_grid_view("v1");

    let row_id = "r4a9".to_string();
    database_test.push_row(Row::new(row_id.clone()));

    let view = database_test.views.get_view("v1").unwrap();
    assert_eq!(view.row_orders.last().unwrap().id, row_id);
}

#[test]
fn create_database_field_test() {
    let mut database_test = create_database_grid_view("v1");

    let field_id = "f9b2".to_string();
    database_test.insert_field(Field::new(field_id.clone(), "my third field".to_string(), 0, false));

    let view = database_test.views.get_view("v1").unwrap();
    assert_eq!(view.field_orders.last().unwrap().id, field_id);
}

#[test]
fn create_database_view_with_filter_test() {
    let mut database_test = create_database_with_default_data();
    let filter_1 = Filter {
        id: "filter1".to_string(),
        field_id: "".to_string(),
        field_type: Default::default(),
        condition: 0,
        content: "".to_string(),
    };

    let filter_2 = Filter {
        id: "filter2".to_string(),
        field_id: "".to_string(),
        field_type: Default::default(),
        condition: 0,
        content: "".to_string(),
    };

    let params = CreateViewParams {
        view_id: "v1".to_string(),
        name: "my first grid".to_string(),
        filters: vec![filter_1, filter_2],
        layout: Layout::Grid,
        ..Default::default()
    };
    database_test.create_view(params);

    let view = database_test.views.get_view("v1").unwrap();
    assert_eq!(view.filters.len(), 2);
    assert_eq!(view.filters[0].id, "filter1");
    assert_eq!(view.filters[1].id, "filter2");
}

#[test]
fn create_database_view_with_group_test() {
    let mut database_test = create_database_with_default_data();
    let group_1 = Group {
        id: "group1".to_string(),
        field_id: "".to_string(),
        field_type: Default::default(),
        items: vec![
            GroupItem {
                id: "group_item1".to_string(),
                name: "group item 1".to_string(),
                visible: false,
            },
            GroupItem {
                id: "group_item2".to_string(),
                name: "group item 2".to_string(),
                visible: false,
            },
        ],
        content: "".to_string(),
    };
    let group_2 = Group {
        id: "group2".to_string(),
        field_id: "".to_string(),
        field_type: Default::default(),
        items: vec![],
        content: "".to_string(),
    };

    let params = CreateViewParams {
        view_id: "v1".to_string(),
        groups: vec![group_1, group_2],
        layout: Layout::Grid,
        ..Default::default()
    };
    database_test.create_view(params);

    let view = database_test.views.get_view("v1").unwrap();
    assert_eq!(view.groups.len(), 2);
    assert_eq!(view.groups[0].id, "group1");
    assert_eq!(view.groups[0].items.len(), 2);
    assert_eq!(view.groups[0].items[0].id, "group_item1");
    assert_eq!(view.groups[0].items[1].id, "group_item2");
    assert_eq!(view.groups[1].id, "group2");
}

#[test]
fn create_database_view_with_layout_setting_test() {
    let mut database_test = create_database_with_default_data();
    let mut grid_setting = TypeOptionData::new();
    grid_setting.insert("1".to_string(), "123".to_string());
    grid_setting.insert("2".to_string(), "abc".to_string());
    let layout_settings = vec![LayoutSetting { layout: Layout::Grid, data: grid_setting }];

    let params = CreateViewParams {
        view_id: "v1".to_string(),
        layout: Layout::Grid,
        layout_settings,
        ..Default::default()
    };
    database_test.create_view(params);

    let view = database_test.views.get_view("v1").unwrap();
    let grid_layout_setting = view
        .layout_settings
        .iter()
        .find(|s| s.layout == Layout::Grid)
        .unwrap();
    assert_eq!(grid_layout_setting.data.get("1").unwrap(), "123");
    assert_eq!(grid_layout_setting.data.get("2").unwrap(), "abc");
}

#[test]
fn delete_inline_database_view_test() {
    let mut database_test = create_database_with_default_data();
    for i in 0..3 {
        let params = CreateViewParams {
            view_id: format!("v{}", i),
            ..Default::default()
        };
        database_test.create_view(params);
    }

    let views = database_test.views.get_all_views();
    let view_id = views[1].id.clone();
    assert_eq!(views.len(), 3);

    database_test.views.delete_view(&view_id);
    let views = database_test
        .views
        .get_all_views()
        .iter()
        .map(|view| view.id.clone())
        .collect::<Vec<String>>();
    assert_eq!(views.len(), 2);
    assert!(!views.contains(&view_id));
}

#[test]
fn duplicate_database_view_test() {
    let mut database_test = create_database_with_default_data();
    let params = CreateViewParams {
        view_id: "v1".to_string(),
        ..Default::default()
    };
    database_test.create_view(params);
    database_test.duplicate_view("v1");

    let views = database_test.views.get_all_views();
    assert_eq!(views.len(), 2);
}

#[test]
fn create_rows_test() {
    let mut database_test = create_database_grid_view("v1");
    let before = database_test.views.get_view("v1").unwrap().row_orders.len();
    for i in 0..100 {
        database_test.push_row(Row::new(i.to_string()));
    }
    let view = database_test.views.get_view("v1").unwrap();
    assert_eq!(view.row_orders.len() - before, 100);
}
