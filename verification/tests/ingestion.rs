use rss_monitor::hash::content_hash;
use rss_monitor::manager::{resolve_tag_ids, FeedManager, RssFeed};
use rss_monitor::parse::{document_to_torrents, Channel, Document, Item};

fn item(title: &str, tags: Option<&str>, link: &str, description: Option<&str>) -> Item {
    Item {
        title: Some(title.to_string()),
        link: Some(link.to_string()),
        tags: tags.map(|t| t.to_string()),
        torrent: None,
        enclosure: None,
        description: description.map(|d| d.to_string()),
    }
}

fn sample_document() -> Document {
    Document {
        channel: Some(Channel {
            title: Some("chan".to_string()),
            description: None,
            item: Some(vec![
                item("One", Some("x y"), "http://t/1", None),
                item("Two", None, "http://t/2", Some("second")),
            ]),
        }),
    }
}

#[test]
fn content_hash_of_all_absent_fields() {
    assert_eq!(content_hash(&None, &None, &None), 15658191375538532279u64);
}

#[test]
fn content_hash_exact_value() {
    let t = Some("A b".to_string());
    let g = Some("x y".to_string());
    assert_eq!(content_hash(&t, &g, &None), 2449845206519711349u64);
    assert_eq!(content_hash(&t, &g, &Some("d".to_string())), 12095815308199142683u64);
}

#[test]
fn content_hash_is_deterministic() {
    let t = Some("A b".to_string());
    let g = Some("x y".to_string());
    let d = Some("desc".to_string());
    assert_eq!(content_hash(&t, &g, &d), content_hash(&t, &g, &d));
}

#[test]
fn content_hash_varies_with_each_field() {
    let t = Some("A b".to_string());
    let g = Some("x y".to_string());
    let base = content_hash(&t, &g, &None);
    assert_ne!(base, content_hash(&Some("a".to_string()), &g, &None));
    assert_ne!(base, content_hash(&t, &Some("x z".to_string()), &None));
    assert_ne!(base, content_hash(&t, &g, &Some("d".to_string())));
}

#[test]
fn hash_taken_over_raw_fields_not_normalized_ones() {
    let upper = item("MiXeD", Some("TAG"), "http://t/1", None);
    let record = document_to_torrents(&Document {
        channel: Some(Channel { title: None, description: None, item: Some(vec![upper]) }),
    })
    .unwrap()
    .remove(0);
    assert_eq!(
        record.item_hash,
        content_hash(&Some("MiXeD".to_string()), &Some("TAG".to_string()), &None),
    );
}

#[test]
fn fresh_indices_skip_seen_hashes() {
    let records = document_to_torrents(&sample_document()).unwrap();
    let seeded = FeedManager::new(vec![], vec![records[0].item_hash]);
    assert_eq!(seeded.fresh_indices(&records), vec![1usize]);
    let unseeded = FeedManager::new(vec![], vec![]);
    assert_eq!(unseeded.fresh_indices(&records), vec![0usize, 1usize]);
}

#[test]
fn same_document_twice_adds_nothing_in_cycle_two() {
    let mut m = FeedManager::new(
        vec![RssFeed {
            url: "http://t/rss".to_string(),
            update_interval: 60,
            last_announce: 0,
            tracker: "t".to_string(),
        }],
        vec![],
    );
    let records = document_to_torrents(&sample_document()).unwrap();

    let fresh1 = m.fresh_indices(&records);
    assert_eq!(fresh1.len(), 2);
    for &i in &fresh1 {
        let marked = m.record_persisted(records[i].item_hash, Some(1 + i as i32));
        assert!(marked);
    }

    let records_again = document_to_torrents(&sample_document()).unwrap();
    assert!(m.fresh_indices(&records_again).is_empty());
}

#[test]
fn failed_insert_leaves_hash_unseen_and_retried() {
    let mut m = FeedManager::new(vec![], vec![]);
    let records = document_to_torrents(&sample_document()).unwrap();

    let marked = m.record_persisted(records[0].item_hash, None);
    assert!(!marked);
    assert!(!m.contains_hash(records[0].item_hash));
    assert_eq!(m.fresh_indices(&records), vec![0usize, 1usize]);

    let marked = m.record_persisted(records[0].item_hash, Some(41));
    assert!(marked);
    assert!(m.contains_hash(records[0].item_hash));
    assert_eq!(m.fresh_indices(&records), vec![1usize]);
}

#[test]
fn seed_hashes_are_seen_from_the_start() {
    let m = FeedManager::new(vec![], vec![3, 5]);
    assert!(m.contains_hash(3));
    assert!(m.contains_hash(5));
    assert!(!m.contains_hash(4));
}

#[test]
fn unresolved_tag_ids_are_dropped() {
    let ids = vec![Some(10), None, Some(12)];
    assert_eq!(resolve_tag_ids(&ids), vec![10, 12]);
    let none: Vec<Option<i32>> = vec![None, None];
    assert!(resolve_tag_ids(&none).is_empty());
}
