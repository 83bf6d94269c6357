use mac_health::monitors::disk::{
    cache_record, calculate_categories, get_storage_categories, CachedStorageCategories,
    StorageCategories, StorageCategory,
};
use serde_json::{Number, Value};

fn to_json(record: &CachedStorageCategories) -> String {
    let mut entries = Vec::new();
    for c in &record.categories.categories {
        let mut entry = serde_json::Map::new();
        entry.insert("name".to_string(), Value::String(c.name.clone()));
        entry.insert("bytes".to_string(), Value::Number(Number::from(c.bytes)));
        entry.insert("color".to_string(), Value::String(c.color.clone()));
        entries.push(Value::Object(entry));
    }
    let mut set = serde_json::Map::new();
    set.insert("categories".to_string(), Value::Array(entries));
    set.insert(
        "total_categorized".to_string(),
        Value::Number(Number::from(record.categories.total_categorized)),
    );
    let mut whole = serde_json::Map::new();
    whole.insert("categories".to_string(), Value::Object(set));
    whole.insert("timestamp".to_string(), Value::Number(Number::from(record.timestamp)));
    serde_json::to_string(&Value::Object(whole)).unwrap()
}

fn from_json(text: &str) -> Option<CachedStorageCategories> {
    let whole: Value = serde_json::from_str(text).ok()?;
    let set = whole.get("categories")?;
    let mut categories = Vec::new();
    for entry in set.get("categories")?.as_array()? {
        categories.push(StorageCategory {
            name: entry.get("name")?.as_str()?.to_string(),
            bytes: entry.get("bytes")?.as_u64()?,
            color: entry.get("color")?.as_str()?.to_string(),
        });
    }
    Some(CachedStorageCategories {
        categories: StorageCategories {
            categories,
            total_categorized: set.get("total_categorized")?.as_u64()?,
        },
        timestamp: whole.get("timestamp")?.as_u64()?,
    })
}

#[test]
fn stored_record_reads_back_as_written() {
    let sizes = vec![Some(1u64 << 40), Some(0), None, Some(u64::MAX), Some(7), Some(8), Some(9)];
    let written = cache_record(calculate_categories(&sizes), 1_700_000_123);
    let read = from_json(&to_json(&written)).unwrap();
    assert_eq!(read.timestamp, written.timestamp);
    assert_eq!(read.categories.total_categorized, written.categories.total_categorized);
    assert_eq!(read.categories.categories.len(), written.categories.categories.len());
    for (a, b) in read.categories.categories.iter().zip(written.categories.categories.iter()) {
        assert_eq!(a.name, b.name);
        assert_eq!(a.bytes, b.bytes);
        assert_eq!(a.color, b.color);
    }
    // read at once, the record is fresh and is what the caller gets
    let got = get_storage_categories(Some(read), 1_700_000_123);
    assert!(!got.refresh);
    assert_eq!(got.categories.total_categorized, u64::MAX);
    assert_eq!(got.categories.categories[0].bytes, 1u64 << 40);
}

#[test]
fn text_that_is_no_record_reads_as_nothing_stored() {
    assert!(from_json("").is_none());
    assert!(from_json("{\"timestamp\": 5}").is_none());
    let got = get_storage_categories(from_json("not json"), 10);
    assert!(got.refresh);
    assert!(got.categories.categories.is_empty());
}
