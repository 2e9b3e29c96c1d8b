use catalog::common::Timestamp;
use catalog::domain::category::dto;
use catalog::domain::category::dto2::{CategoryResponseDto, CategoryRow, CategoryTreeDto};
use catalog::web::category::get_main_and_sub_categories;
use catalog::web::category2::build_root_categories;

fn at(secs: i64) -> Timestamp {
    Timestamp { secs, nanos: 0 }
}

fn flat(id: i64, name: &str, parent: Option<i64>) -> CategoryResponseDto {
    CategoryResponseDto {
        id,
        name_en: name.to_string(),
        name_ar: format!("{}-ar", name),
        parent_id: parent,
        notes: None,
        created_at: at(id),
        updated_at: at(id + 1000),
    }
}

fn listed(id: i64, name: &str, parent: Option<i64>) -> dto::CategoryResponseDTO {
    dto::CategoryResponseDTO {
        id,
        name_en: name.to_string(),
        name_ar: format!("{}-ar", name),
        parent_id: parent,
        parent_name: None,
        notes: Some(format!("notes {}", id)),
        created_at: at(id),
        updated_at: at(id),
    }
}

#[test]
fn rows_name_their_parent() {
    let cats = vec![flat(1, "Shoes", None), flat(2, "Boots", Some(1)), flat(3, "Orphan", Some(99))];
    let rows = CategoryRow::build_rows(&cats);
    assert_eq!(rows.len(), 3);
    assert_eq!(rows[0].parent_name, None);
    assert_eq!(rows[1].parent_name.as_deref(), Some("Shoes"));
    assert_eq!(rows[2].parent_name, None);
    assert_eq!(rows[1].id, 2);
    assert_eq!(rows[1].name_en, "Boots");
    assert_eq!(rows[1].name_ar, "Boots-ar");
    assert_eq!(rows[1].created_at, at(2));
}

#[test]
fn rows_take_the_last_category_with_a_shared_id() {
    let cats = vec![flat(1, "First", None), flat(1, "Second", None), flat(2, "Child", Some(1))];
    let rows = CategoryRow::build_rows(&cats);
    assert_eq!(rows[2].parent_name.as_deref(), Some("Second"));
}

#[test]
fn rows_of_the_list_page_name_their_parent() {
    let cats = vec![listed(5, "Bags", None), listed(6, "Totes", Some(5))];
    let rows = dto::CategoryRow::build_rows(&cats);
    assert_eq!(rows[0].name, "Bags");
    assert_eq!(rows[0].notes.as_deref(), Some("notes 5"));
    assert_eq!(rows[1].parent_name.as_deref(), Some("Bags"));
}

#[test]
fn tree_keeps_list_order_at_every_level() {
    let cats = vec![
        flat(10, "B", None),
        flat(11, "B1", Some(10)),
        flat(1, "A", None),
        flat(12, "B2", Some(10)),
        flat(13, "B1a", Some(11)),
        flat(14, "Lost", Some(77)),
    ];
    assert!(CategoryTreeDto::can_build_tree(&cats));
    let forest = CategoryTreeDto::build_tree(cats);
    assert_eq!(forest.len(), 2);
    assert_eq!(forest[0].id, 10);
    assert_eq!(forest[1].id, 1);
    assert!(forest[1].children.is_empty());
    let b = &forest[0];
    assert_eq!(b.children.len(), 2);
    assert_eq!(b.children[0].name_en, "B1");
    assert_eq!(b.children[1].name_en, "B2");
    assert_eq!(b.children[0].children.len(), 1);
    assert_eq!(b.children[0].children[0].id, 13);
    assert_eq!(b.children[0].children[0].updated_at, at(1013));
}

#[test]
fn empty_list_gives_empty_forest() {
    assert!(CategoryTreeDto::can_build_tree(&[]));
    assert!(CategoryTreeDto::build_tree(Vec::new()).is_empty());
}

#[test]
fn a_cycle_below_the_top_is_refused() {
    let cats = vec![flat(1, "Top", None), flat(1, "Loop", Some(1))];
    assert!(!CategoryTreeDto::can_build_tree(&cats));
}

#[test]
fn a_cycle_out_of_reach_is_accepted() {
    let cats = vec![flat(1, "Top", None), flat(2, "X", Some(3)), flat(3, "Y", Some(2))];
    assert!(CategoryTreeDto::can_build_tree(&cats));
    let forest = CategoryTreeDto::build_tree(cats);
    assert_eq!(forest.len(), 1);
    assert!(forest[0].children.is_empty());
}

#[test]
fn shared_ids_without_a_cycle_are_accepted() {
    let cats = vec![flat(1, "A", None), flat(1, "A again", None), flat(2, "Child", Some(1))];
    assert!(CategoryTreeDto::can_build_tree(&cats));
    let forest = CategoryTreeDto::build_tree(cats);
    assert_eq!(forest.len(), 2);
    assert_eq!(forest[0].children.len(), 1);
    assert_eq!(forest[1].children.len(), 1);
}

#[test]
fn deep_chain_is_accepted() {
    let mut cats = vec![flat(0, "root", None)];
    for i in 1..50 {
        cats.push(flat(i, "node", Some(i - 1)));
    }
    assert!(CategoryTreeDto::can_build_tree(&cats));
    let forest = CategoryTreeDto::build_tree(cats);
    let mut node = &forest[0];
    let mut depth = 1;
    while let Some(child) = node.children.first() {
        node = child;
        depth += 1;
    }
    assert_eq!(depth, 50);
}

#[test]
fn root_categories_leave_out_children_and_the_excluded_one() {
    let cats = vec![flat(1, "A", None), flat(2, "B", Some(1)), flat(3, "C", None)];
    let all = build_root_categories(&cats, None);
    assert_eq!(all.iter().map(|c| c.id).collect::<Vec<_>>(), vec![1, 3]);
    let some = build_root_categories(&cats, Some(3));
    assert_eq!(some.iter().map(|c| c.id).collect::<Vec<_>>(), vec![1]);
}

#[test]
fn split_keeps_every_category_once() {
    let cats = vec![listed(1, "A", None), listed(2, "B", Some(1)), listed(3, "C", None), listed(4, "D", Some(3))];
    let (mains, subs) = get_main_and_sub_categories(cats);
    assert_eq!(mains.iter().map(|c| c.id).collect::<Vec<_>>(), vec![1, 3]);
    assert_eq!(subs.iter().map(|c| c.id).collect::<Vec<_>>(), vec![2, 4]);
}
