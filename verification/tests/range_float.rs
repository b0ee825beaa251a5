use blockfile::keys::FloatKey;
use blockfile::manager::StorageManager;
use blockfile::reader_writer::{MemoryBlockfileWriter, HashMapBlockfileReader};

/// The order code of a finite, non-NaN 32-bit float: unsigned comparison of
/// codes agrees with the numeric comparison of the floats.
fn float_key(x: f32) -> FloatKey {
    let b = x.to_bits();
    let code = if b & 0x8000_0000 != 0 { !b } else { b | 0x8000_0000 };
    FloatKey::new(code)
}

#[test]
fn test_get_gt_float_none_returned() {
    let mut storage_manager = StorageManager::new();
    let mut writer = MemoryBlockfileWriter::new(&mut storage_manager);
    let id = writer.id();
    let _ = writer.set("prefix", float_key(1.0), "value1".to_string());
    let _ = writer.set("prefix", float_key(2.0), "value2".to_string());
    let _ = writer.set("prefix", float_key(3.0), "value3".to_string());
    let _ = writer.commit(&mut storage_manager);

    let reader: HashMapBlockfileReader<FloatKey, String> =
        HashMapBlockfileReader::open(id, &storage_manager).unwrap();
    let values = reader.get_gt("prefix", float_key(3.0));
    assert!(values.is_err());
}

#[test]
fn test_get_gt_float_all_returned() {
    let mut storage_manager = StorageManager::new();
    let mut writer = MemoryBlockfileWriter::new(&mut storage_manager);
    let id = writer.id();
    let _ = writer.set("prefix", float_key(1.0), "value1".to_string());
    let _ = writer.set("prefix", float_key(2.0), "value2".to_string());
    let _ = writer.set("prefix", float_key(3.0), "value3".to_string());
    let _ = writer.commit(&mut storage_manager);

    let reader: HashMapBlockfileReader<FloatKey, String> =
        HashMapBlockfileReader::open(id, &storage_manager).unwrap();
    let values = reader.get_gt("prefix", float_key(0.0)).unwrap();
    assert_eq!(values.len(), 3);
    assert!(values
        .iter()
        .any(|(prefix, key, value)| *prefix == "prefix" && *key == float_key(1.0) && *value == "value1"));
    assert!(values
        .iter()
        .any(|(prefix, key, value)| *prefix == "prefix" && *key == float_key(2.0) && *value == "value2"));
    assert!(values
        .iter()
        .any(|(prefix, key, value)| *prefix == "prefix" && *key == float_key(3.0) && *value == "value3"));
}

#[test]
fn test_get_gt_float_some_returned() {
    let mut storage_manager = StorageManager::new();
    let mut writer = MemoryBlockfileWriter::new(&mut storage_manager);
    let id = writer.id();
    let _ = writer.set("prefix", float_key(1.0), "value1".to_string());
    let _ = writer.set("prefix", float_key(2.0), "value2".to_string());
    let _ = writer.set("prefix", float_key(3.0), "value3".to_string());
    let _ = writer.commit(&mut storage_manager);

    let reader: HashMapBlockfileReader<FloatKey, String> =
        HashMapBlockfileReader::open(id, &storage_manager).unwrap();
    let values = reader.get_gt("prefix", float_key(1.0)).unwrap();
    assert_eq!(values.len(), 2);
    assert!(values
        .iter()
        .any(|(prefix, key, value)| *prefix == "prefix" && *key == float_key(2.0) && *value == "value2"));
    assert!(values
        .iter()
        .any(|(prefix, key, value)| *prefix == "prefix" && *key == float_key(3.0) && *value == "value3"));
}

#[test]
fn test_get_gte_float_none_returned() {
    let mut storage_manager = StorageManager::new();
    let mut writer = MemoryBlockfileWriter::new(&mut storage_manager);
    let id = writer.id();
    let _ = writer.set("prefix", float_key(1.0), "value1".to_string());
    let _ = writer.set("prefix", float_key(2.0), "value2".to_string());
    let _ = writer.set("prefix", float_key(3.0), "value3".to_string());
    let _ = writer.commit(&mut storage_manager);

    let reader: HashMapBlockfileReader<FloatKey, String> =
        HashMapBlockfileReader::open(id, &storage_manager).unwrap();
    let values = reader.get_gte("prefix", float_key(3.5));
    assert!(values.is_err());
}

#[test]
fn test_get_gte_float_all_returned() {
    let mut storage_manager = StorageManager::new();
    let mut writer = MemoryBlockfileWriter::new(&mut storage_manager);
    let id = writer.id();
    let _ = writer.set("prefix", float_key(1.0), "value1".to_string());
    let _ = writer.set("prefix", float_key(2.0), "value2".to_string());
    let _ = writer.set("prefix", float_key(3.0), "value3".to_string());
    let _ = writer.commit(&mut storage_manager);

    let reader: HashMapBlockfileReader<FloatKey, String> =
        HashMapBlockfileReader::open(id, &storage_manager).unwrap();
    let values = reader.get_gte("prefix", float_key(0.5)).unwrap();
    assert_eq!(values.len(), 3);
    assert!(values
        .iter()
        .any(|(prefix, key, value)| *prefix == "prefix" && *key == float_key(1.0) && *value == "value1"));
    assert!(values
        .iter()
        .any(|(prefix, key, value)| *prefix == "prefix" && *key == float_key(2.0) && *value == "value2"));
    assert!(values
        .iter()
        .any(|(prefix, key, value)| *prefix == "prefix" && *key == float_key(3.0) && *value == "value3"));
}

#[test]
fn test_get_gte_float_some_returned() {
    let mut storage_manager = StorageManager::new();
    let mut writer = MemoryBlockfileWriter::new(&mut storage_manager);
    let id = writer.id();
    let _ = writer.set("prefix", float_key(1.0), "value1".to_string());
    let _ = writer.set("prefix", float_key(2.0), "value2".to_string());
    let _ = writer.set("prefix", float_key(3.0), "value3".to_string());
    let _ = writer.commit(&mut storage_manager);

    let reader: HashMapBlockfileReader<FloatKey, String> =
        HashMapBlockfileReader::open(id, &storage_manager).unwrap();
    let values = reader.get_gte("prefix", float_key(1.5)).unwrap();
    assert_eq!(values.len(), 2);
    assert!(values
        .iter()
        .any(|(prefix, key, value)| *prefix == "prefix" && *key == float_key(2.0) && *value == "value2"));
    assert!(values
        .iter()
        .any(|(prefix, key, value)| *prefix == "prefix" && *key == float_key(3.0) && *value == "value3"));
}

#[test]
fn test_get_lt_float_none_returned() {
    let mut storage_manager = StorageManager::new();
    let mut writer = MemoryBlockfileWriter::new(&mut storage_manager);
    let id = writer.id();
    let _ = writer.set("prefix", float_key(1.0), "value1".to_string());
    let _ = writer.set("prefix", float_key(2.0), "value2".to_string());
    let _ = writer.set("prefix", float_key(3.0), "value3".to_string());
    let _ = writer.commit(&mut storage_manager);

    let reader: HashMapBlockfileReader<FloatKey, String> =
        HashMapBlockfileReader::open(id, &storage_manager).unwrap();
    let values = reader.get_lt("prefix", float_key(0.5));
    assert!(values.is_err());
}

#[test]
fn test_get_lt_float_all_returned() {
    let mut storage_manager = StorageManager::new();
    let mut writer = MemoryBlockfileWriter::new(&mut storage_manager);
    let id = writer.id();
    let _ = writer.set("prefix", float_key(1.0), "value1".to_string());
    let _ = writer.set("prefix", float_key(2.0), "value2".to_string());
    let _ = writer.set("prefix", float_key(3.0), "value3".to_string());
    let _ = writer.commit(&mut storage_manager);

    let reader: HashMapBlockfileReader<FloatKey, String> =
        HashMapBlockfileReader::open(id, &storage_manager).unwrap();
    let values = reader.get_lt("prefix", float_key(3.5)).unwrap();
    assert_eq!(values.len(), 3);
    assert!(values
        .iter()
        .any(|(prefix, key, value)| *prefix == "prefix" && *key == float_key(1.0) && *value == "value1"));
    assert!(values
        .iter()
        .any(|(prefix, key, value)| *prefix == "prefix" && *key == float_key(2.0) && *value == "value2"));
    assert!(values
        .iter()
        .any(|(prefix, key, value)| *prefix == "prefix" && *key == float_key(3.0) && *value == "value3"));
}

#[test]
fn test_get_lt_float_some_returned() {
    let mut storage_manager = StorageManager::new();
    let mut writer = MemoryBlockfileWriter::new(&mut storage_manager);
    let id = writer.id();
    let _ = writer.set("prefix", float_key(1.0), "value1".to_string());
    let _ = writer.set("prefix", float_key(2.0), "value2".to_string());
    let _ = writer.set("prefix", float_key(3.0), "value3".to_string());
    let _ = writer.commit(&mut storage_manager);

    let reader: HashMapBlockfileReader<FloatKey, String> =
        HashMapBlockfileReader::open(id, &storage_manager).unwrap();
    let values = reader.get_lt("prefix", float_key(2.5)).unwrap();
    assert_eq!(values.len(), 2);
    assert!(values
        .iter()
        .any(|(prefix, key, value)| *prefix == "prefix" && *key == float_key(1.0) && *value == "value1"));
    assert!(values
        .iter()
        .any(|(prefix, key, value)| *prefix == "prefix" && *key == float_key(2.0) && *value == "value2"));
}

#[test]
fn test_get_lte_float_none_returned() {
    let mut storage_manager = StorageManager::new();
    let mut writer = MemoryBlockfileWriter::new(&mut storage_manager);
    let id = writer.id();
    let _ = writer.set("prefix", float_key(1.0), "value1".to_string());
    let _ = writer.set("prefix", float_key(2.0), "value2".to_string());
    let _ = writer.set("prefix", float_key(3.0), "value3".to_string());
    let _ = writer.commit(&mut storage_manager);

    let reader: HashMapBlockfileReader<FloatKey, String> =
        HashMapBlockfileReader::open(id, &storage_manager).unwrap();
    let values = reader.get_lte("prefix", float_key(0.5));
    assert!(values.is_err());
}

#[test]
fn test_get_lte_float_all_returned() {
    let mut storage_manager = StorageManager::new();
    let mut writer = MemoryBlockfileWriter::new(&mut storage_manager);
    let id = writer.id();
    let _ = writer.set("prefix", float_key(1.0), "value1".to_string());
    let _ = writer.set("prefix", float_key(2.0), "value2".to_string());
    let _ = writer.set("prefix", float_key(3.0), "value3".to_string());
    let _ = writer.commit(&mut storage_manager);

    let reader: HashMapBlockfileReader<FloatKey, String> =
        HashMapBlockfileReader::open(id, &storage_manager).unwrap();
    let values = reader.get_lte("prefix", float_key(3.0)).unwrap();
    assert_eq!(values.len(), 3);
    assert!(values
        .iter()
        .any(|(prefix, key, value)| *prefix == "prefix" && *key == float_key(1.0) && *value == "value1"));
    assert!(values
        .iter()
        .any(|(prefix, key, value)| *prefix == "prefix" && *key == float_key(2.0) && *value == "value2"));
    assert!(values
        .iter()
        .any(|(prefix, key, value)| *prefix == "prefix" && *key == float_key(3.0) && *value == "value3"));
}

#[test]
fn test_get_lte_float_some_returned() {
    let mut storage_manager = StorageManager::new();
    let mut writer = MemoryBlockfileWriter::new(&mut storage_manager);
    let id = writer.id();
    let _ = writer.set("prefix", float_key(1.0), "value1".to_string());
    let _ = writer.set("prefix", float_key(2.0), "value2".to_string());
    let _ = writer.set("prefix", float_key(3.0), "value3".to_string());
    let _ = writer.commit(&mut storage_manager);

    let reader: HashMapBlockfileReader<FloatKey, String> =
        HashMapBlockfileReader::open(id, &storage_manager).unwrap();
    let values = reader.get_lte("prefix", float_key(2.0)).unwrap();
    assert_eq!(values.len(), 2);
    assert!(values
        .iter()
        .any(|(prefix, key, value)| *prefix == "prefix" && *key == float_key(1.0) && *value == "value1"));
    assert!(values
        .iter()
        .any(|(prefix, key, value)| *prefix == "prefix" && *key == float_key(2.0) && *value == "value2"));
}

