use dscode::marketplace::{ExtensionReview, MarketplaceUIRegistry, UpdateNotification};

fn review(author: &str, rating: u8) -> ExtensionReview {
    ExtensionReview {
        author: author.to_string(),
        rating,
        title: None,
        comment: None,
        created_at: "2024-01-01".to_string(),
        helpful_count: 0,
    }
}

fn notice(id: &str, latest: &str) -> UpdateNotification {
    UpdateNotification {
        extension_id: id.to_string(),
        extension_name: id.to_string(),
        current_version: "1.0.0".to_string(),
        latest_version: latest.to_string(),
        change_log: None,
        created_at: "now".to_string(),
    }
}

#[test]
fn default_categories_are_listed() {
    let reg = MarketplaceUIRegistry::new();
    let cats = reg.get_categories();
    assert_eq!(cats.len(), 8);
    assert_eq!(cats[0].id, "programming-languages");
    assert_eq!(cats[7].name, "Other");
    assert_eq!(reg.get_category("themes").unwrap().icon.as_deref(), Some("palette"));
    assert!(reg.get_category("nope").is_none());
}

#[test]
fn ratings_follow_the_reviews() {
    let mut reg = MarketplaceUIRegistry::new();
    assert!(reg.get_rating("e").is_none());
    reg.add_review("e".to_string(), review("a", 5)).unwrap();
    reg.add_review("e".to_string(), review("b", 3)).unwrap();
    reg.add_review("e".to_string(), review("c", 5)).unwrap();
    let r = reg.get_rating("e").unwrap();
    assert_eq!(r.rating_sum, 13);
    assert_eq!(r.total_ratings, 3);
    assert_eq!(r.rating_distribution, vec![(5, 2), (3, 1)]);
    assert_eq!(reg.get_reviews("e").len(), 3);
    assert!(reg.get_reviews("other").is_empty());
}

#[test]
fn reviews_come_in_pages() {
    let mut reg = MarketplaceUIRegistry::new();
    for i in 0..5u8 {
        reg.add_review("e".to_string(), review(&format!("u{}", i), 4)).unwrap();
    }
    let p = reg.get_reviews_paginated("e", 1, 2);
    assert_eq!(p.reviews.len(), 2);
    assert_eq!(p.reviews[0].author, "u2");
    assert_eq!(p.total, 5);
    assert_eq!(p.total_pages, 3);
    let last = reg.get_reviews_paginated("e", 2, 2);
    assert_eq!(last.reviews.len(), 1);
    let past = reg.get_reviews_paginated("e", 7, 2);
    assert!(past.reviews.is_empty());
}

#[test]
fn recommendations_skip_installed_and_repeats() {
    let mut reg = MarketplaceUIRegistry::new();
    reg.add_recommendation("a".to_string(), vec!["b".to_string(), "c".to_string(), "d".to_string()]);
    reg.add_recommendation("b".to_string(), vec!["c".to_string(), "e".to_string()]);
    assert_eq!(reg.get_recommendations("a"), vec!["b", "c", "d"]);
    let got = reg.generate_recommendations(vec!["a".to_string(), "b".to_string()]);
    assert_eq!(got, vec!["c", "d", "e"]);
}

#[test]
fn one_notice_per_extension_newest_last() {
    let mut reg = MarketplaceUIRegistry::new();
    reg.add_update_notification(notice("x", "1.1"));
    reg.add_update_notification(notice("y", "2.0"));
    reg.add_update_notification(notice("x", "1.2"));
    let n = reg.get_update_notifications();
    assert_eq!(n.len(), 2);
    assert_eq!(n[0].extension_id, "y");
    assert_eq!(n[1].latest_version, "1.2");
    reg.remove_update_notification("y");
    assert_eq!(reg.get_update_notifications().len(), 1);
    reg.clear_update_notifications();
    assert!(reg.get_update_notifications().is_empty());
}

#[test]
fn clearing_all_data_keeps_categories() {
    let mut reg = MarketplaceUIRegistry::new();
    reg.set_featured_extensions(vec!["f".to_string()]);
    assert_eq!(reg.get_featured_extensions(), vec!["f"]);
    reg.add_review("e".to_string(), review("a", 1)).unwrap();
    reg.clear_all_data();
    assert!(reg.get_featured_extensions().is_empty());
    assert!(reg.get_rating("e").is_none());
    assert_eq!(reg.get_categories().len(), 8);
}
