use arangodb_types::documents::DBDocumentField;
use arangodb_types::models::{InnerModelKind, SyncLevelType};
use arangodb_types::traits::utils::{
    check_client_is_write_conflict, is_write_conflict, ERROR_WRITE_CONFLICT,
};
use arangodb_types::traits::{APIDocument, DBDocument, DBNormalize, DBNormalizeResult};
use arangodb_types::types::filters::APIFilteringStatsConfig;
use arangodb_types::types::number::{from_signed, from_unsigned};
use arangodb_types::types::uuid::{check_nanoid, INVALID_CHARS};
use arangodb_types::types::{
    APIReference, DBId, DBMutex, DBMutexField, DBReference, DBUuid, NullableOption,
};
use arangodb_types::utilities::DBMutexError;
use arangors::ClientError;

// ----------------------------------------------------------------------------
// Identifiers.
// ----------------------------------------------------------------------------

#[test]
fn test_serialization() {
    let id = DBUuid::from_str("gid000020").unwrap();
    let serialization = serde_json::to_string(id.as_string()).unwrap();

    assert_eq!(serialization, "\"gid000020\"");

    let deserialization =
        DBUuid::try_from(serde_json::from_str::<String>(&serialization).unwrap()).unwrap();
    assert_eq!(deserialization, id);
}

#[test]
fn test_from_str() {
    let id = DBUuid::from_str("gidMh8J1aB000000000000020").expect("The from_str must succeed");
    let id_ok = DBUuid::try_from("gidMh8J1aB000000000000020".to_string()).unwrap();
    assert_eq!(id, id_ok);
    assert_eq!(id.as_string(), "gidMh8J1aB000000000000020");

    DBUuid::from_str("gidMh8J1aB00000000000002\u{f1}").expect_err("The id must fail by character");
}

#[test]
fn check_nanoid_takes_the_alphabet_and_nothing_else() {
    let alphabet = "-0123456789ABCDEFGHIJKLMNOPQRSTUVWXYZ_abcdefghijklmnopqrstuvwxyz";
    assert_eq!(alphabet.len(), 64);
    assert_eq!(check_nanoid(alphabet), Ok(()));
    assert_eq!(check_nanoid(""), Ok(()));

    for c in 0..=255_u8 {
        let c = c as char;
        let text = format!("ab{}cd", c);
        let expected = if alphabet.contains(c) { Ok(()) } else { Err(INVALID_CHARS) };
        assert_eq!(check_nanoid(&text), expected, "character {:?}", c);
    }
    assert_eq!(check_nanoid("a/b"), Err("nanoid::decoding::invalid_chars"));
    assert_eq!(check_nanoid("\u{20ac}"), Err("nanoid::decoding::invalid_chars"));
    assert_eq!(DBUuid::from_str("a b"), Err("nanoid::decoding::invalid_chars"));
    assert_eq!(DBUuid::try_from("a.b".to_string()), Err("nanoid::decoding::invalid_chars"));
}

fn drawn_from(id: &DBUuid, length: usize, allowed: &str) {
    assert_eq!(id.as_string().chars().count(), length);
    for c in id.as_string().chars() {
        assert!(allowed.contains(c), "character {:?}", c);
    }
    assert_eq!(check_nanoid(id.as_string()), Ok(()));
}

#[test]
fn new_identifiers_have_their_length_and_alphabet() {
    let simple = "0123456789ABCDEFGHIJKLMNOPQRSTUVWXYZabcdefghijklmnopqrstuvwxyz";
    let base60 = "0123456789ABCDEFGHJKLMNPQRSTUVWXYZabcdefghijklmnopqrstuvwxyz";
    let base58 = "123456789ABCDEFGHJKLMNPQRSTUVWXYZabcdefghijkmnopqrstuvwxyz";
    let all = "-_0123456789ABCDEFGHIJKLMNOPQRSTUVWXYZabcdefghijklmnopqrstuvwxyz";

    for _ in 0..50 {
        drawn_from(&DBUuid::new(), 22, all);
        drawn_from(&DBUuid::default(), 22, all);
        drawn_from(&DBUuid::new_with_length(1), 1, all);
        drawn_from(&DBUuid::new_with_length(40), 40, all);
        drawn_from(&DBUuid::new_simple(), 23, simple);
        drawn_from(&DBUuid::new_simple_with_length(7), 7, simple);
        drawn_from(&DBUuid::new_base60(), 23, base60);
        drawn_from(&DBUuid::new_base60_with_length(64), 64, base60);
        drawn_from(&DBUuid::new_base58(), 23, base58);
        drawn_from(&DBUuid::new_base58_with_length(64), 64, base58);
    }
    assert_ne!(DBUuid::new(), DBUuid::new());
}

#[test]
fn identifiers_compare_by_their_characters() {
    let a = DBUuid::from_str("abc").unwrap();
    assert_eq!(a, a.clone());
    assert_eq!(a.to_string(), "abc");
    assert_ne!(a, DBUuid::from_str("abd").unwrap());
    assert!(a < DBUuid::from_str("abd").unwrap());
}

#[test]
fn db_id_holds_key_and_collection() {
    let id = DBId::new(5_u64, "users");
    assert_eq!(id.key(), &5);
    assert_eq!(id.collection(), &"users");
    assert_eq!(id, DBId::new(5_u64, "users"));
    assert_ne!(id, DBId::new(6_u64, "users"));
}

#[test]
fn db_id_is_written_as_collection_slash_key() {
    let id = DBId::new("k1".to_string(), "users".to_string());
    assert_eq!(id.to_id(), "users/k1");
    assert_eq!(DBId::from_id("users/k1"), Some(id));
    assert_eq!(
        DBId::from_id("\u{e4}b/\u{20ac}"),
        Some(DBId::new("\u{20ac}".to_string(), "\u{e4}b".to_string()))
    );
    assert_eq!(DBId::from_id("/"), Some(DBId::new(String::new(), String::new())));
    assert_eq!(DBId::from_id("users/"), Some(DBId::new(String::new(), "users".to_string())));
    assert_eq!(DBId::from_id("users"), None);
    assert_eq!(DBId::from_id(""), None);
    assert_eq!(DBId::from_id("a/b/c"), None);
    assert_eq!(DBId::from_id("a//"), None);
}

// ----------------------------------------------------------------------------
// Fields, options and settings.
// ----------------------------------------------------------------------------

#[test]
fn document_fields_have_their_paths() {
    assert_eq!(DBDocumentField::Key.path(), "_key");
    assert_eq!(DBDocumentField::Id.path(), "_id");
    assert_eq!(DBDocumentField::Rev.path(), "_rev");
    assert_eq!(DBDocumentField::To.path(), "_to");
    assert_eq!(DBDocumentField::From.path(), "_from");
    assert_eq!(DBDocumentField::Mutex.path(), "_l");
    assert_eq!(DBMutexField::Node.path(), "N");
    assert_eq!(DBMutexField::ChangeFlag.path(), "F");
    assert_eq!(DBMutexField::Expiration.path(), "E");
}

#[test]
fn sync_levels_say_what_is_active() {
    let levels = [
        (SyncLevelType::Disabled, false, false, false),
        (SyncLevelType::OnlyDocument, true, false, true),
        (SyncLevelType::OnlyCollection, false, true, true),
        (SyncLevelType::DocumentAndCollection, true, true, true),
    ];
    for (level, document, collection, active) in levels {
        assert_eq!(level.is_document_active(), document);
        assert_eq!(level.is_collection_active(), collection);
        assert_eq!(level.is_active(), active);
    }
    assert_eq!(SyncLevelType::default(), SyncLevelType::Disabled);
    assert_eq!(InnerModelKind::default(), InnerModelKind::Data);
    assert_ne!(InnerModelKind::Struct, InnerModelKind::Enum);
}

#[test]
fn filtering_stats_start_at_zero() {
    let stats = APIFilteringStatsConfig::default();
    assert_eq!(stats.field_count, 0);
    assert_eq!(stats.const_count, 0);
    assert_eq!(stats.expression_count, 0);
    assert_eq!(stats.function_count, 0);
}

#[test]
fn nullable_option_tells_its_three_states() {
    let missing: NullableOption<u8> = NullableOption::default();
    assert!(missing.is_missing() && !missing.is_null() && !missing.is_value());
    let null: NullableOption<u8> = NullableOption::Null;
    assert!(!null.is_missing() && null.is_null() && !null.is_value());
    let value = NullableOption::Value(3_u8);
    assert!(!value.is_missing() && !value.is_null() && value.is_value());
    assert_eq!(value.unwrap_as_ref(), &3);
    assert_eq!(value.clone().unwrap(), 3);
    assert_eq!(value.into_option(), Some(3));
    assert_eq!(null.into_option(), None);
    assert_eq!(missing.into_option(), None);
}

#[test]
fn numbers_are_read_within_the_range_of_their_type() {
    assert_eq!(from_signed(0, 0, u8::MAX as u64), Some(0));
    assert_eq!(from_signed(255, 0, u8::MAX as u64), Some(255));
    assert_eq!(from_signed(256, 0, u8::MAX as u64), None);
    assert_eq!(from_signed(-1, 0, u8::MAX as u64), None);
    assert_eq!(from_signed(-128, i8::MIN as i64, i8::MAX as u64), Some(-128));
    assert_eq!(from_signed(-129, i8::MIN as i64, i8::MAX as u64), None);
    assert_eq!(from_signed(127, i8::MIN as i64, i8::MAX as u64), Some(127));
    assert_eq!(from_signed(128, i8::MIN as i64, i8::MAX as u64), None);
    assert_eq!(from_signed(i64::MAX, 0, u64::MAX), Some(i64::MAX));
    assert_eq!(from_signed(i64::MIN, i64::MIN, i64::MAX as u64), Some(i64::MIN));
    assert_eq!(from_signed(1234, 0, u32::MAX as u64), Some(1234));

    assert_eq!(from_unsigned(255, u8::MAX as u64), Some(255));
    assert_eq!(from_unsigned(256, u8::MAX as u64), None);
    assert_eq!(from_unsigned(u64::MAX, u64::MAX), Some(u64::MAX));
    assert_eq!(from_unsigned(1 << 63, i64::MAX as u64), None);
    assert_eq!(from_unsigned(1234000, u32::MAX as u64), Some(1234000));
}

// ----------------------------------------------------------------------------
// Errors.
// ----------------------------------------------------------------------------

#[test]
fn mutex_errors_have_their_messages() {
    assert_eq!(DBMutexError::NotFound.message(), "Document not found");
    assert_eq!(DBMutexError::Timeout.message(), "Cannot lock document because timed out");
    let other = DBMutexError::from(anyhow::Error::msg("the store is down"));
    assert!(matches!(other, DBMutexError::Other(_)));
    assert_eq!(other.message(), "the store is down");
}

fn arango_error(error_num: u16) -> ClientError {
    let text = format!(
        "{{\"code\":409,\"errorNum\":{},\"errorMessage\":\"write-write conflict\"}}",
        error_num
    );
    ClientError::Arango(serde_json::from_str(&text).unwrap())
}

#[test]
fn write_conflicts_are_told_from_other_errors() {
    assert_eq!(ERROR_WRITE_CONFLICT, 1200);
    assert!(is_write_conflict(Some(1200)));
    assert!(!is_write_conflict(Some(1201)));
    assert!(!is_write_conflict(Some(0)));
    assert!(!is_write_conflict(None));

    match check_client_is_write_conflict(arango_error(1200)) {
        Ok(ClientError::Arango(e)) => assert_eq!(e.error_num(), 1200),
        _ => panic!("A write conflict is tried again"),
    }
    match check_client_is_write_conflict(arango_error(1202)) {
        Err(ClientError::Arango(e)) => assert_eq!(e.error_num(), 1202),
        _ => panic!("Any other error of the store is final"),
    }
    match check_client_is_write_conflict(ClientError::HttpClient("1200".to_string())) {
        Err(ClientError::HttpClient(text)) => assert_eq!(text, "1200"),
        _ => panic!("An error of the transport is final"),
    }
    match check_client_is_write_conflict(ClientError::InvalidServer("1200".to_string())) {
        Err(ClientError::InvalidServer(_)) => {}
        _ => panic!("An error of the transport is final"),
    }
}

// ----------------------------------------------------------------------------
// References.
// ----------------------------------------------------------------------------

#[derive(Debug, Clone, PartialEq)]
struct Stored {
    db_key: Option<DBUuid>,
    name: String,
}

impl DBDocument for Stored {
    type CollectionType = &'static str;

    fn key(&self) -> Option<DBUuid> {
        self.db_key.clone()
    }

    fn db_key(&self) -> &Option<DBUuid> {
        &self.db_key
    }

    fn set_db_key(&mut self, value: Option<DBUuid>) {
        self.db_key = value;
    }

    fn normalize_fields(&mut self) -> DBNormalizeResult {
        let trimmed = self.name.trim().to_string();
        if trimmed.is_empty() {
            self.name = trimmed;
            DBNormalizeResult::Removed
        } else if trimmed != self.name {
            self.name = trimmed;
            DBNormalizeResult::Modified
        } else {
            DBNormalizeResult::NotModified
        }
    }
}

#[derive(Debug, Clone, PartialEq)]
struct Shown {
    id: Option<DBUuid>,
    name: String,
}

impl APIDocument for Shown {
    fn api_id(&self) -> Option<DBUuid> {
        self.id.clone()
    }

    fn id(&self) -> &Option<DBUuid> {
        &self.id
    }
}

fn stored(key: &str, name: &str) -> Stored {
    Stored { db_key: Some(DBUuid::from_str(key).unwrap()), name: name.to_string() }
}

#[test]
fn db_reference_holds_a_key_or_a_document() {
    let key = DBUuid::from_str("k1").unwrap();
    let by_key = DBReference::<Stored>::new_key(key.clone());
    let mut by_document = DBReference::Document(Box::new(stored("k1", "one")));

    assert!(by_key.is_key() && !by_key.is_document());
    assert!(!by_document.is_key() && by_document.is_document());
    assert_eq!(by_key.key(), key);
    assert_eq!(by_document.key(), key);
    assert_eq!(by_document.unwrap_document_as_ref(), &stored("k1", "one"));

    by_document.unwrap_document_as_mut_ref().name = "uno".to_string();
    assert_eq!(by_document.unwrap_document_as_ref().name, "uno");
    by_document.unwrap_document_as_mut_ref().set_db_key(None);
    assert_eq!(*by_document.unwrap_document(), Stored { db_key: None, name: "uno".to_string() });
}

#[test]
fn normalizing_a_reference_cleans_its_document() {
    let mut by_key = DBReference::<Stored>::new_key(DBUuid::from_str("k1").unwrap());
    assert_eq!(by_key.normalize(), DBNormalizeResult::NotModified);
    assert!(by_key.is_key());

    let mut clean = DBReference::Document(Box::new(stored("k1", "one")));
    assert_eq!(clean.normalize(), DBNormalizeResult::NotModified);
    let mut padded = DBReference::Document(Box::new(stored("k1", " one ")));
    assert_eq!(padded.normalize(), DBNormalizeResult::Modified);
    assert_eq!(padded.unwrap_document_as_ref().name, "one");
    let mut blank = DBReference::Document(Box::new(stored("k1", "  ")));
    assert_eq!(blank.normalize(), DBNormalizeResult::Modified);
    assert!(blank.is_document());

    let mut document = stored("k1", " one ");
    assert_eq!(document.normalize(), DBNormalizeResult::Modified);
    assert_eq!(document.normalize(), DBNormalizeResult::NotModified);

    let mut id = DBUuid::from_str("k1").unwrap();
    assert_eq!(id.normalize(), DBNormalizeResult::NotModified);
    assert_eq!(id, DBUuid::from_str("k1").unwrap());
}

#[test]
fn db_references_compare_by_kind_and_key() {
    let a = DBReference::<Stored>::new_key(DBUuid::from_str("k1").unwrap());
    let b = DBReference::<Stored>::new_key(DBUuid::from_str("k2").unwrap());
    let doc_a = DBReference::Document(Box::new(stored("k1", "one")));
    let doc_a_too = DBReference::Document(Box::new(stored("k1", "other name")));
    let doc_b = DBReference::Document(Box::new(stored("k2", "one")));
    let keyless = DBReference::Document(Box::new(Stored { db_key: None, name: "x".to_string() }));
    let keyless_too =
        DBReference::Document(Box::new(Stored { db_key: None, name: "y".to_string() }));

    assert!(a == a && a != b);
    assert!(doc_a == doc_a_too && doc_a != doc_b);
    assert!(a != doc_a && doc_a != a);
    assert!(keyless == keyless_too && keyless != doc_a);
}

#[test]
fn references_map_between_store_and_clients() {
    let to_api = |d: Box<Stored>| Box::new(Shown { id: d.db_key, name: d.name });
    let to_db = |d: Box<Shown>| Box::new(Stored { db_key: d.id, name: d.name });

    let shown = DBReference::Document(Box::new(stored("k1", "one"))).map_to_api(to_api);
    assert!(shown.is_document() && !shown.is_key());
    assert_eq!(shown.key(), DBUuid::from_str("k1").unwrap());
    assert_eq!(shown.unwrap_document_as_ref().name, "one");

    let back = shown.map_to_db(to_db);
    assert_eq!(*back.unwrap_document(), stored("k1", "one"));

    let by_key = DBReference::<Stored>::new_key(DBUuid::from_str("k9").unwrap())
        .map_to_api(|_| -> Box<Shown> { panic!("There is no document to map") });
    assert!(by_key.is_key());
    assert_eq!(by_key.key(), DBUuid::from_str("k9").unwrap());
    let back = by_key.map_to_db(|_| -> Box<Stored> { panic!("There is no document to map") });
    assert!(back.is_key());
    assert_eq!(back.key(), DBUuid::from_str("k9").unwrap());
}

#[test]
fn api_references_compare_by_kind_and_id() {
    let a = APIReference::<Shown>::new_key(DBUuid::from_str("k1").unwrap());
    let b = APIReference::<Shown>::new_key(DBUuid::from_str("k2").unwrap());
    let shown = |id: &str, name: &str| {
        APIReference::Document(Box::new(Shown {
            id: Some(DBUuid::from_str(id).unwrap()),
            name: name.to_string(),
        }))
    };
    let mut doc = shown("k1", "one");

    assert!(a == a && a != b);
    assert!(doc == shown("k1", "two") && doc != shown("k2", "one"));
    assert!(a != doc && doc != a);
    doc.unwrap_document_as_mut_ref().name = "uno".to_string();
    doc.and(|document| document.name.push('!'));
    assert_eq!(doc.unwrap_document().name, "uno!");

    let mut by_key = APIReference::<Shown>::new_key(DBUuid::from_str("k1").unwrap());
    by_key.and(|_| panic!("There is no document to change"));
    assert!(by_key == a);
}

#[test]
fn mutexes_compare_field_by_field() {
    let mutex = |node: &str, flag: &str, at: i64| DBMutex {
        node: node.to_string(),
        change_flag: DBUuid::from_str(flag).unwrap(),
        expiration: arangodb_types::types::dates::DBDateTime::new(at).unwrap(),
    };
    assert_eq!(mutex("n", "f", 1), mutex("n", "f", 1).clone());
    assert_ne!(mutex("n", "f", 1), mutex("m", "f", 1));
    assert_ne!(mutex("n", "f", 1), mutex("n", "g", 1));
    assert_ne!(mutex("n", "f", 1), mutex("n", "f", 2));
}
