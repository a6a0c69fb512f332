use jsx_transpiler::export_type::ExportType;
use jsx_transpiler::string_map::StringMap;
use jsx_transpiler::type_info::{sha256_digest, tag_of, type_of_tag, TypeInfo, TYPE_INFO_VERSION};

fn exports(entries: &[(&str, ExportType)]) -> StringMap<ExportType> {
    let mut map = StringMap::new();
    for (k, v) in entries {
        map.insert(k.to_string(), *v);
    }
    map
}

fn entries_of(map: &StringMap<ExportType>) -> Vec<(String, ExportType)> {
    (0..map.len()).map(|i| { let (k, v) = map.entry(i); (k.clone(), *v) }).collect()
}

fn hash_of(text: &str) -> [u8; 32] {
    sha256_digest(text.as_bytes()).unwrap()
}

#[test]
fn digest_is_sha256() {
    let expected: [u8; 32] = [
        0xba, 0x78, 0x16, 0xbf, 0x8f, 0x01, 0xcf, 0xea, 0x41, 0x41, 0x40, 0xde, 0x5d, 0xae, 0x22,
        0x23, 0xb0, 0x03, 0x61, 0xa3, 0x96, 0x17, 0x7a, 0x9c, 0xb4, 0x10, 0xff, 0x61, 0xf2, 0x00,
        0x15, 0xad,
    ];
    assert_eq!(sha256_digest(b"abc"), Some(expected));
    let empty: [u8; 32] = [
        0xe3, 0xb0, 0xc4, 0x42, 0x98, 0xfc, 0x1c, 0x14, 0x9a, 0xfb, 0xf4, 0xc8, 0x99, 0x6f, 0xb9,
        0x24, 0x27, 0xae, 0x41, 0xe4, 0x64, 0x9b, 0x93, 0x4c, 0xa4, 0x95, 0x99, 0x1b, 0x78, 0x52,
        0xb8, 0x55,
    ];
    assert_eq!(sha256_digest(b""), Some(empty));
}

#[test]
fn record_layout_is_exact() {
    let mut hash = [0u8; 32];
    for (i, b) in hash.iter_mut().enumerate() {
        *b = i as u8;
    }
    let info = TypeInfo::new(hash, exports(&[("App", ExportType::AsyncJSX)]));
    assert_eq!(info.version, TYPE_INFO_VERSION);
    let mut expected: Vec<u8> = vec![1, 0];
    expected.extend_from_slice(&hash);
    expected.extend_from_slice(&[1, 0, 0, 0, 0, 0, 0, 0]);
    expected.extend_from_slice(&[3, 0, 0, 0, 0, 0, 0, 0]);
    expected.extend_from_slice(b"App");
    expected.extend_from_slice(&[1, 0, 0, 0]);
    assert_eq!(info.encode(), expected);
}

#[test]
fn record_layout_agrees_with_bincode() {
    let config = bincode::config::standard().with_fixed_int_encoding();
    let hash = hash_of("export const a = 1;");
    let entries = [("default", ExportType::JSX), ("héllo", ExportType::Other), ("z", ExportType::AsyncOther)];
    let info = TypeInfo::new(hash, exports(&entries));
    let mut expected = bincode::encode_to_vec(TYPE_INFO_VERSION, config).unwrap();
    expected.extend(bincode::encode_to_vec(hash, config).unwrap());
    expected.extend(bincode::encode_to_vec(entries.len(), config).unwrap());
    for (key, value) in entries {
        expected.extend(bincode::encode_to_vec(key.to_string(), config).unwrap());
        expected.extend(bincode::encode_to_vec(tag_of(value), config).unwrap());
    }
    assert_eq!(info.encode(), expected);
}

#[test]
fn written_records_are_read_back() {
    let hash = hash_of("source");
    let entries = [
        ("Foo", ExportType::JSX),
        ("load", ExportType::AsyncJSX),
        ("n", ExportType::Other),
        ("später", ExportType::AsyncOther),
        ("", ExportType::Other),
    ];
    let info = TypeInfo::new(hash, exports(&entries));
    let bytes = info.encode();
    let back = TypeInfo::decode(&bytes).unwrap();
    assert_eq!(back.version, TYPE_INFO_VERSION);
    assert_eq!(back.hash, hash);
    assert_eq!(entries_of(&back.exports), entries_of(&info.exports));

    let empty = TypeInfo::new(hash, exports(&[]));
    let back = TypeInfo::decode(&empty.encode()).unwrap();
    assert_eq!(back.exports.len(), 0);
    assert_eq!(empty.encode().len(), 42);
}

#[test]
fn bytes_after_a_record_are_ignored() {
    let info = TypeInfo::new(hash_of("x"), exports(&[("a", ExportType::JSX)]));
    let mut bytes = info.encode();
    bytes.extend_from_slice(&[9, 9, 9]);
    let back = TypeInfo::decode(&bytes).unwrap();
    assert_eq!(entries_of(&back.exports), vec![("a".to_string(), ExportType::JSX)]);
}

#[test]
fn later_entries_of_a_record_win() {
    let mut bytes = TypeInfo::new(hash_of("x"), exports(&[])).encode();
    bytes[34] = 2;
    for tag in [0u8, 3u8] {
        bytes.extend_from_slice(&[1, 0, 0, 0, 0, 0, 0, 0]);
        bytes.push(b'k');
        bytes.extend_from_slice(&[tag, 0, 0, 0]);
    }
    let back = TypeInfo::decode(&bytes).unwrap();
    assert_eq!(entries_of(&back.exports), vec![("k".to_string(), ExportType::AsyncOther)]);
}

#[test]
fn corrupt_records_are_not_read() {
    let info = TypeInfo::new(hash_of("x"), exports(&[("ab", ExportType::JSX)]));
    let bytes = info.encode();
    // every proper prefix is too short
    for n in 0..bytes.len() {
        assert!(TypeInfo::decode(&bytes[..n]).is_none(), "prefix of {} bytes", n);
    }
    // a type that is none of the four
    let mut bad_tag = bytes.clone();
    let last = bad_tag.len() - 4;
    bad_tag[last] = 4;
    assert!(TypeInfo::decode(&bad_tag).is_none());
    // a key that is not UTF-8
    let mut bad_key = bytes.clone();
    bad_key[50] = 0xff;
    assert!(TypeInfo::decode(&bad_key).is_none());
    // a key longer than the rest of the record
    let mut long_key = bytes.clone();
    long_key[49] = 0xff;
    assert!(TypeInfo::decode(&long_key).is_none());
    // more entries announced than present
    let mut more = bytes.clone();
    more[34] = 2;
    assert!(TypeInfo::decode(&more).is_none());
}

#[test]
fn tags_stand_for_the_four_types() {
    for (t, n) in [
        (ExportType::JSX, 0u32),
        (ExportType::AsyncJSX, 1),
        (ExportType::Other, 2),
        (ExportType::AsyncOther, 3),
    ] {
        assert_eq!(tag_of(t), n);
        assert_eq!(type_of_tag(n), Some(t));
    }
    assert_eq!(type_of_tag(4), None);
    assert_eq!(type_of_tag(u32::MAX), None);
}

#[test]
fn unchanged_source_hits_the_cache() {
    let source = "export const App = () => <main/>;";
    let hash = hash_of(source);
    let stored = TypeInfo::new(hash, exports(&[("App", ExportType::JSX)])).encode();
    // the same bytes again
    let again = hash_of(source);
    let hit = TypeInfo::lookup(&again, Some(&stored)).unwrap();
    assert_eq!(entries_of(&hit.exports), vec![("App".to_string(), ExportType::JSX)]);
    assert!(hit.is_valid_for(&again));
}

#[test]
fn changed_source_misses_the_cache() {
    let source = "export const App = () => <main/>;";
    let stored = TypeInfo::new(hash_of(source), exports(&[("App", ExportType::JSX)])).encode();
    let changed = "export const App = () => <main/>,";
    assert!(TypeInfo::lookup(&hash_of(changed), Some(&stored)).is_none());
    assert!(TypeInfo::lookup(&hash_of(source), None).is_none());
}

#[test]
fn other_versions_and_corrupt_records_miss_the_cache() {
    let hash = hash_of("x");
    let mut stored = TypeInfo::new(hash, exports(&[("a", ExportType::JSX)])).encode();
    assert!(TypeInfo::lookup(&hash, Some(&stored)).is_some());
    stored[0] = 2;
    assert!(TypeInfo::lookup(&hash, Some(&stored)).is_none());
    stored[0] = 1;
    stored.truncate(45);
    assert!(TypeInfo::lookup(&hash, Some(&stored)).is_none());
    assert!(TypeInfo::lookup(&hash, Some(&[])).is_none());
}
