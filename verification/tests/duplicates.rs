use photo_tools::duplicates::{
    duplicate_image_count, duplicate_paths, row_count, single, FilePathRecord, Image, TableModel,
};
use photo_tools::error::ErrorKind;

fn image(id: i32, hash: Option<&str>) -> Image {
    Image {
        id: Some(id),
        album: None,
        name: format!("image-{}", id),
        status: 0,
        category: 0,
        modification_date: None,
        file_size: None,
        unique_hash: hash.map(|h| h.to_string()),
    }
}

#[test]
fn duplicate_count_includes_all_shared_rows_and_excludes_singletons() {
    // Hash "aa" occurs twice, "bb" once: the two "aa" rows count, the
    // "bb" row does not.
    let rows = vec![
        image(1, Some("aa")),
        image(2, Some("bb")),
        image(3, Some("aa")),
    ];
    assert_eq!(duplicate_image_count(&rows), 2);

    // Hash "aa" occurs three times: all three rows count.
    let rows = vec![
        image(1, Some("aa")),
        image(2, Some("aa")),
        image(3, Some("aa")),
        image(4, Some("cc")),
    ];
    assert_eq!(duplicate_image_count(&rows), 3);
}

#[test]
fn duplicate_count_on_unique_rows_is_zero() {
    let rows = vec![image(1, Some("aa")), image(2, Some("bb"))];
    assert_eq!(duplicate_image_count(&rows), 0);
    let rows: Vec<Image> = vec![];
    assert_eq!(duplicate_image_count(&rows), 0);
}

#[test]
fn rows_without_a_hash_group_together() {
    let rows = vec![image(1, None), image(2, None), image(3, Some("aa"))];
    assert_eq!(duplicate_image_count(&rows), 2);
}

#[test]
fn duplicate_path_listing_keeps_table_order() {
    let rows = vec![
        FilePathRecord {
            thumb_id: 7,
            path: "a.jpg".to_string(),
        },
        FilePathRecord {
            thumb_id: 8,
            path: "b.jpg".to_string(),
        },
        FilePathRecord {
            thumb_id: 7,
            path: "c.jpg".to_string(),
        },
    ];
    assert_eq!(duplicate_paths(&rows), vec!["a.jpg", "c.jpg"]);
}

#[test]
fn row_count_answers_exactly() {
    let tables = vec![
        TableModel {
            name: "Images".to_string(),
            row_count: 42,
        },
        TableModel {
            name: "thumbs.FilePaths".to_string(),
            row_count: 7,
        },
    ];
    assert_eq!(row_count(&tables, "Images").unwrap(), 42);
    assert_eq!(row_count(&tables, "thumbs.FilePaths").unwrap(), 7);
}

#[test]
fn row_count_on_a_missing_table_is_a_schema_violation() {
    let tables = vec![TableModel {
        name: "Images".to_string(),
        row_count: 42,
    }];
    let e = row_count(&tables, "Albums").unwrap_err();
    assert_eq!(e.kind, ErrorKind::SchemaViolation);
}

#[test]
fn single_returns_the_only_element() {
    assert_eq!(single(vec![5u32]), 5);
    assert_eq!(single(vec!["one".to_string()]), "one");
}
