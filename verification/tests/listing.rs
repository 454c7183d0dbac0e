use storefront_catalog::handlers::{get_banners, get_categories};
use storefront_catalog::listing::{arrange, keep_active, list, Listed};
use storefront_catalog::models::text::name_sorts_before;
use storefront_catalog::models::{Banner, Category, EntityId, Timestamp};
use storefront_catalog::response::{StatusCode, StoreError};

fn banner(id: u128, display_order: i32, is_active: bool, created_at: i64) -> Banner {
    Banner {
        id: EntityId { bits: id },
        image_url: format!("http://x/{}.png", id),
        title: None,
        description: None,
        link_url: None,
        display_order,
        is_active,
        created_at: Timestamp { micros: created_at },
        updated_at: Timestamp { micros: created_at },
    }
}

fn category(id: u128, name: &str, display_order: i32, is_active: bool) -> Category {
    Category {
        id: EntityId { bits: id },
        name: name.to_string(),
        slug: format!("slug-{}", id),
        description: None,
        icon_url: None,
        display_order,
        is_active,
        created_at: Timestamp { micros: 0 },
        updated_at: Timestamp { micros: 0 },
    }
}

fn banner_ids(rows: &[Banner]) -> Vec<u128> {
    rows.iter().map(|b| b.id.bits).collect()
}

fn category_ids(rows: &[Category]) -> Vec<u128> {
    rows.iter().map(|c| c.id.bits).collect()
}

#[test]
fn inactive_banners_are_never_listed() {
    let rows = vec![banner(1, 0, false, 10), banner(2, 0, true, 20), banner(3, 0, false, 30)];
    let out = get_banners(Ok(rows)).unwrap();
    assert_eq!(banner_ids(&out), vec![2]);
    assert!(out.iter().all(|b| b.is_active));
}

#[test]
fn no_active_banner_is_an_empty_answer() {
    let rows = vec![banner(1, 0, false, 10), banner(2, 5, false, 20)];
    assert_eq!(get_banners(Ok(rows)).unwrap().len(), 0);
    assert_eq!(get_banners(Ok(Vec::new())).unwrap().len(), 0);
}

#[test]
fn banners_come_by_display_order_then_newest_first() {
    let rows = vec![
        banner(1, 2, true, 100),
        banner(2, 1, true, 100),
        banner(3, 1, true, 300),
        banner(4, -1, true, 50),
        banner(5, 1, true, 200),
        banner(6, 0, false, 999),
    ];
    let out = get_banners(Ok(rows)).unwrap();
    assert_eq!(banner_ids(&out), vec![4, 3, 5, 2, 1]);
}

#[test]
fn banners_that_tie_keep_the_order_given() {
    let rows = vec![banner(7, 1, true, 100), banner(8, 1, true, 100), banner(9, 1, true, 100)];
    let out = get_banners(Ok(rows)).unwrap();
    assert_eq!(banner_ids(&out), vec![7, 8, 9]);
}

#[test]
fn listed_banners_keep_every_field() {
    let mut row = banner(11, 3, true, 42);
    row.title = Some("Sale".to_string());
    row.link_url = Some("http://x/sale".to_string());
    row.updated_at = Timestamp { micros: 43 };
    let out = get_banners(Ok(vec![row])).unwrap();
    assert_eq!(out.len(), 1);
    assert_eq!(out[0].id, EntityId { bits: 11 });
    assert_eq!(out[0].image_url, "http://x/11.png");
    assert_eq!(out[0].title.as_deref(), Some("Sale"));
    assert_eq!(out[0].description, None);
    assert_eq!(out[0].link_url.as_deref(), Some("http://x/sale"));
    assert_eq!(out[0].display_order, 3);
    assert_eq!(out[0].created_at, Timestamp { micros: 42 });
    assert_eq!(out[0].updated_at, Timestamp { micros: 43 });
}

#[test]
fn a_failing_store_is_a_server_failure_for_banners() {
    for error in [StoreError::Unavailable, StoreError::UniqueViolation, StoreError::ForeignKeyViolation] {
        let out = get_banners(Err(error));
        assert_eq!(out.err(), Some(StatusCode::InternalServerError));
    }
}

#[test]
fn categories_come_by_display_order_then_name() {
    let rows = vec![
        category(1, "Tools", 1, true),
        category(2, "Games", 1, true),
        category(3, "Zebra", 0, true),
        category(4, "Audio", 1, false),
        category(5, "Game", 1, true),
        category(6, "apps", 1, true),
    ];
    let out = get_categories(Ok(rows)).unwrap();
    assert_eq!(category_ids(&out), vec![3, 5, 2, 1, 6]);
    assert!(out.iter().all(|c| c.is_active));
}

#[test]
fn categories_with_one_name_keep_the_order_given() {
    let rows = vec![category(1, "Same", 0, true), category(2, "Same", 0, true)];
    let out = get_categories(Ok(rows)).unwrap();
    assert_eq!(category_ids(&out), vec![1, 2]);
}

#[test]
fn a_failing_store_is_a_server_failure_for_categories() {
    let out = get_categories(Err(StoreError::Unavailable));
    assert_eq!(out.err(), Some(StatusCode::InternalServerError));
}

#[test]
fn names_sort_byte_by_byte() {
    assert!(name_sorts_before("", ""));
    assert!(name_sorts_before("", "a"));
    assert!(!name_sorts_before("a", ""));
    assert!(name_sorts_before("abc", "abc"));
    assert!(name_sorts_before("abc", "abd"));
    assert!(!name_sorts_before("abd", "abc"));
    assert!(name_sorts_before("ab", "abc"));
    assert!(!name_sorts_before("abc", "ab"));
    assert!(name_sorts_before("Z", "a"));
    assert!(!name_sorts_before("a", "Z"));
    assert!(name_sorts_before("z", "\u{e9}"));
    assert!(!name_sorts_before("\u{e9}", "z"));
    assert!(name_sorts_before("\u{e9}", "\u{4e2d}"));
}

#[test]
fn names_sort_as_their_strings_compare() {
    let names = ["", "a", "A", "ab", "b", "\u{e9}", "\u{4e2d}", "zz", "a b"];
    for a in names {
        for b in names {
            assert_eq!(name_sorts_before(a, b), a <= b);
        }
    }
}

#[test]
fn keep_active_drops_the_rest_and_keeps_the_order() {
    let rows = vec![banner(3, 9, true, 1), banner(1, 0, false, 2), banner(2, 5, true, 3)];
    assert_eq!(banner_ids(&keep_active(rows)), vec![3, 2]);
}

#[test]
fn arrange_keeps_every_row() {
    let rows = vec![banner(3, 9, true, 1), banner(1, 0, false, 2), banner(2, 5, true, 3), banner(1, 0, false, 2)];
    let out = arrange(rows);
    assert_eq!(banner_ids(&out), vec![1, 1, 2, 3]);
}

#[test]
fn list_is_keep_active_then_arrange() {
    let rows = vec![banner(3, 9, true, 1), banner(1, 0, false, 2), banner(2, 5, true, 3)];
    assert_eq!(banner_ids(&list(rows.clone())), banner_ids(&arrange(keep_active(rows))));
}

#[test]
fn the_order_of_two_banners() {
    let early = banner(1, 1, true, 10);
    let late = banner(2, 1, true, 20);
    let first = banner(3, 0, true, 5);
    assert!(late.comes_before(&early));
    assert!(!early.comes_before(&late));
    assert!(first.comes_before(&late));
    assert!(!late.comes_before(&first));
    assert!(early.comes_before(&early));
    assert!(Listed::is_active(&early));
}

#[test]
fn display_order_extremes_do_not_wrap() {
    let rows = vec![banner(1, i32::MAX, true, 0), banner(2, i32::MIN, true, 0), banner(3, 0, true, i64::MIN), banner(4, 0, true, i64::MAX)];
    let out = get_banners(Ok(rows)).unwrap();
    assert_eq!(banner_ids(&out), vec![2, 4, 3, 1]);
}
