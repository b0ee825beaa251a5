use blockfile::keys::FloatKey;
use blockfile::manager::StorageManager;
use blockfile::reader_writer::{MemoryBlockfileWriter, HashMapBlockfileReader};

/// The order code of a finite, non-NaN 32-bit float: unsigned comparison of
/// codes agrees with the numeric comparison of the floats.
fn float_key(x: f32) -> FloatKey {
    let b = x.to_bits();
    let code = if b & 0x8000_0000 != 0 { !b } else { b | 0x8000_0000 };
    FloatKey::new(code)
}

#[test]
fn test_read_uncommitted_fails() {
    let mut storage_manager = StorageManager::new();
    let mut writer = MemoryBlockfileWriter::new(&mut storage_manager);
    let id = writer.id();
    let _ = writer.set("prefix", "key1".to_string(), "value1".to_string());
    // No commit: the builder's in-progress contents must never be readable.
    let reader: Result<HashMapBlockfileReader<String, String>, _> =
        HashMapBlockfileReader::open(id, &storage_manager);
    assert!(reader.is_err());
}

#[test]
fn test_read_unknown_id_fails() {
    let storage_manager = StorageManager::new();
    let reader: Result<HashMapBlockfileReader<String, String>, _> =
        HashMapBlockfileReader::open(12345, &storage_manager);
    assert!(reader.is_err());
}

#[test]
fn test_get_missing_key_errors() {
    let mut storage_manager = StorageManager::new();
    let mut writer = MemoryBlockfileWriter::new(&mut storage_manager);
    let id = writer.id();
    let _ = writer.set("prefix", "key1".to_string(), "value1".to_string());
    let _ = writer.commit(&mut storage_manager);

    let reader: HashMapBlockfileReader<String, String> =
        HashMapBlockfileReader::open(id, &storage_manager).unwrap();
    assert!(reader.get("prefix", "key2".to_string()).is_err());
    assert!(reader.get("other_prefix", "key1".to_string()).is_err());
    assert!(reader.get_by_prefix("other_prefix").is_err());
}

#[test]
fn test_get_idempotent() {
    let mut storage_manager = StorageManager::new();
    let mut writer = MemoryBlockfileWriter::new(&mut storage_manager);
    let id = writer.id();
    let _ = writer.set("prefix", "key1".to_string(), "value1".to_string());
    let _ = writer.commit(&mut storage_manager);

    let reader: HashMapBlockfileReader<String, String> =
        HashMapBlockfileReader::open(id, &storage_manager).unwrap();
    let first = reader.get("prefix", "key1".to_string()).unwrap();
    let second = reader.get("prefix", "key1".to_string()).unwrap();
    assert_eq!(first, second);
}

#[test]
fn test_overwrite_same_key() {
    let mut storage_manager = StorageManager::new();
    let mut writer = MemoryBlockfileWriter::new(&mut storage_manager);
    let id = writer.id();
    let _ = writer.set("prefix", "key1".to_string(), "value1".to_string());
    let _ = writer.set("prefix", "key1".to_string(), "value2".to_string());
    let _ = writer.commit(&mut storage_manager);

    let reader: HashMapBlockfileReader<String, String> =
        HashMapBlockfileReader::open(id, &storage_manager).unwrap();
    let value = reader.get("prefix", "key1".to_string()).unwrap();
    assert_eq!(value, "value2");
    let values = reader.get_by_prefix("prefix").unwrap();
    assert_eq!(values.len(), 1);
}

#[test]
fn test_negative_float_order() {
    let mut storage_manager = StorageManager::new();
    let mut writer = MemoryBlockfileWriter::new(&mut storage_manager);
    let id = writer.id();
    let _ = writer.set("prefix", float_key(-2.0), "low".to_string());
    let _ = writer.set("prefix", float_key(-1.0), "mid".to_string());
    let _ = writer.set("prefix", float_key(1.0), "high".to_string());
    let _ = writer.commit(&mut storage_manager);

    let reader: HashMapBlockfileReader<FloatKey, String> =
        HashMapBlockfileReader::open(id, &storage_manager).unwrap();
    let values = reader.get_gt("prefix", float_key(-1.5)).unwrap();
    assert_eq!(values.len(), 2);
    assert!(values.iter().any(|(_, key, value)| *key == float_key(-1.0) && *value == "mid"));
    assert!(values.iter().any(|(_, key, value)| *key == float_key(1.0) && *value == "high"));
    let values = reader.get_lt("prefix", float_key(0.0)).unwrap();
    assert_eq!(values.len(), 2);
    assert!(values.iter().any(|(_, key, value)| *key == float_key(-2.0) && *value == "low"));
    assert!(values.iter().any(|(_, key, value)| *key == float_key(-1.0) && *value == "mid"));
}

#[test]
fn test_bool_key_order() {
    let mut storage_manager = StorageManager::new();
    let mut writer = MemoryBlockfileWriter::new(&mut storage_manager);
    let id = writer.id();
    let _ = writer.set("prefix", false, "no".to_string());
    let _ = writer.set("prefix", true, "yes".to_string());
    let _ = writer.commit(&mut storage_manager);

    let reader: HashMapBlockfileReader<bool, String> =
        HashMapBlockfileReader::open(id, &storage_manager).unwrap();
    let values = reader.get_gt("prefix", false).unwrap();
    assert_eq!(values.len(), 1);
    assert!(values.iter().any(|(_, key, value)| *key == true && *value == "yes"));
    assert!(reader.get_lt("prefix", false).is_err());
}

#[test]
fn test_string_key_order() {
    let mut storage_manager = StorageManager::new();
    let mut writer = MemoryBlockfileWriter::new(&mut storage_manager);
    let id = writer.id();
    let _ = writer.set("prefix", "apple".to_string(), "value1".to_string());
    let _ = writer.set("prefix", "banana".to_string(), "value2".to_string());
    let _ = writer.set("prefix", "cherry".to_string(), "value3".to_string());
    let _ = writer.commit(&mut storage_manager);

    let reader: HashMapBlockfileReader<String, String> =
        HashMapBlockfileReader::open(id, &storage_manager).unwrap();
    let values = reader.get_gte("prefix", "banana".to_string()).unwrap();
    assert_eq!(values.len(), 2);
    assert!(values.iter().any(|(_, key, value)| *key == "banana" && *value == "value2"));
    assert!(values.iter().any(|(_, key, value)| *key == "cherry" && *value == "value3"));
    let values = reader.get_lt("prefix", "banana".to_string()).unwrap();
    assert_eq!(values.len(), 1);
    assert!(values.iter().any(|(_, key, value)| *key == "apple" && *value == "value1"));
    // A proper prefix of a stored key sorts before it.
    let values = reader.get_gt("prefix", "ban".to_string()).unwrap();
    assert_eq!(values.len(), 2);
}

#[test]
fn test_two_instances_independent() {
    let mut storage_manager = StorageManager::new();
    let mut writer_a = MemoryBlockfileWriter::new(&mut storage_manager);
    let id_a = writer_a.id();
    let mut writer_b = MemoryBlockfileWriter::new(&mut storage_manager);
    let id_b = writer_b.id();
    assert_ne!(id_a, id_b);

    let _ = writer_a.set("prefix", "key1".to_string(), "from_a".to_string());
    let _ = writer_b.set("prefix", "key1".to_string(), "from_b".to_string());
    let _ = writer_a.commit(&mut storage_manager);
    let _ = writer_b.commit(&mut storage_manager);

    let reader_a: HashMapBlockfileReader<String, String> =
        HashMapBlockfileReader::open(id_a, &storage_manager).unwrap();
    let reader_b: HashMapBlockfileReader<String, String> =
        HashMapBlockfileReader::open(id_b, &storage_manager).unwrap();
    assert_eq!(reader_a.get("prefix", "key1".to_string()).unwrap(), "from_a");
    assert_eq!(reader_b.get("prefix", "key1".to_string()).unwrap(), "from_b");
}

#[test]
fn test_value_types_partitioned() {
    let mut storage_manager = StorageManager::new();
    let mut writer = MemoryBlockfileWriter::new(&mut storage_manager);
    let id = writer.id();
    let mut bitmap = roaring::RoaringBitmap::new();
    bitmap.insert(7);
    let _ = writer.set("prefix", "key1".to_string(), "text".to_string());
    let _ = writer.set("prefix", "key1".to_string(), bitmap);
    let _ = writer.commit(&mut storage_manager);

    // Each reader is typed to one value type and sees only that partition.
    let string_reader: HashMapBlockfileReader<String, String> =
        HashMapBlockfileReader::open(id, &storage_manager).unwrap();
    assert_eq!(string_reader.get("prefix", "key1".to_string()).unwrap(), "text");
    let bitmap_reader: HashMapBlockfileReader<String, roaring::RoaringBitmap> =
        HashMapBlockfileReader::open(id, &storage_manager).unwrap();
    assert!(bitmap_reader.get("prefix", "key1".to_string()).unwrap().contains(7));
}

#[test]
fn test_writer_id_stable() {
    let mut storage_manager = StorageManager::new();
    let mut writer = MemoryBlockfileWriter::new(&mut storage_manager);
    let id = writer.id();
    let _ = writer.set("prefix", "key1".to_string(), "value1".to_string());
    assert_eq!(writer.id(), id);
    let _ = writer.commit(&mut storage_manager);

    let reader: HashMapBlockfileReader<String, String> =
        HashMapBlockfileReader::open(id, &storage_manager).unwrap();
    assert_eq!(reader.id(), id);
}
