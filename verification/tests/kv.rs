use shaken::KeyValueStore;

#[test]
fn key_value() {
    // a record held as a (name, size) tuple, so the CBOR encoding needs
    // no derive
    let foo: (String, u64) = ("this is a name".to_string(), 42);

    let kv = KeyValueStore::fetch("testing");
    let mut kv = kv.unwrap();

    let key_42 = serde_cbor::to_vec(&42u64).unwrap();
    let key_asdf = serde_cbor::to_vec(&"asdf").unwrap();

    kv.set(&key_42, &serde_cbor::to_vec(&foo).unwrap()).unwrap();
    kv.set(&key_asdf, &serde_cbor::to_vec(&42u64).unwrap()).unwrap();

    let got: (String, u64) = serde_cbor::from_slice(&kv.get(&key_42).unwrap()).unwrap();
    assert_eq!(got, ("this is a name".to_string(), 42));

    let got: i64 = serde_cbor::from_slice(&kv.get(&key_asdf).unwrap()).unwrap();
    assert_eq!(got, 42);

    assert!(kv.remove(&key_asdf));
    assert!(kv.get(&key_asdf).is_none());
    assert!(!kv.remove(&key_asdf));

    kv.set(&key_asdf, &serde_cbor::to_vec(&42u64).unwrap()).unwrap();
    kv.set(&key_asdf, &serde_cbor::to_vec(&42u64).unwrap()).unwrap();
}
