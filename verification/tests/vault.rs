use plan_visualizer::vault::{
    b64_encode, decrypt, encrypt, key_from_secret, key_round_trip, PlanVault, VaultError,
};

fn test_key() -> Vec<u8> {
    (0u8..32u8).collect()
}

fn plan(id: &str, content: u64) -> serde_json::Value {
    let text = format!(
        "{{\"summary\":{{\"id\":\"{}\"}},\"content\":{}}}",
        id, content
    );
    serde_json::from_str(&text).unwrap()
}

fn plan_id(v: &serde_json::Value) -> &str {
    v.pointer("/summary/id").unwrap().as_str().unwrap()
}

#[test]
fn store_lists_most_recent_first() {
    let mut vault = PlanVault::open(test_key(), None).unwrap();
    vault.store_plan(plan("a", 1)).unwrap();
    vault.store_plan(plan("b", 2)).unwrap();
    let plans = vault.list_plans().unwrap();
    assert_eq!(plans.len(), 2);
    assert_eq!(plan_id(&plans[0]), "b");
    assert_eq!(plan_id(&plans[1]), "a");
}

#[test]
fn storing_same_id_twice_keeps_second_content_in_front() {
    let mut vault = PlanVault::open(test_key(), None).unwrap();
    vault.store_plan(plan("other", 0)).unwrap();
    vault.store_plan(plan("X", 1)).unwrap();
    vault.store_plan(plan("X", 2)).unwrap();
    let plans = vault.list_plans().unwrap();
    assert_eq!(plans.len(), 2);
    assert_eq!(plans[0], plan("X", 2));
    assert_eq!(plan_id(&plans[1]), "other");
    let with_x: Vec<_> = plans.iter().filter(|p| plan_id(p) == "X").collect();
    assert_eq!(with_x.len(), 1);
}

#[test]
fn fifty_one_stores_evict_least_recent() {
    let mut vault = PlanVault::open(test_key(), None).unwrap();
    for i in 0..51u64 {
        vault.store_plan(plan(&format!("id{}", i), i)).unwrap();
    }
    let plans = vault.list_plans().unwrap();
    assert_eq!(plans.len(), 50);
    assert_eq!(plan_id(&plans[0]), "id50");
    assert!(plans.iter().all(|p| plan_id(p) != "id0"));
    assert_eq!(plan_id(&plans[49]), "id1");
}

#[test]
fn storing_plan_without_id_fails() {
    let mut vault = PlanVault::open(test_key(), None).unwrap();
    vault.store_plan(plan("keep", 7)).unwrap();
    let no_id: serde_json::Value = serde_json::from_str("{\"summary\":{}}").unwrap();
    assert_eq!(vault.store_plan(no_id), Err(VaultError::MissingId));
    let non_string_id: serde_json::Value =
        serde_json::from_str("{\"summary\":{\"id\":7}}").unwrap();
    assert_eq!(vault.store_plan(non_string_id), Err(VaultError::MissingId));
    assert_eq!(vault.list_plans().unwrap().len(), 1);
}

#[test]
fn deleting_missing_id_is_noop() {
    let mut vault = PlanVault::open(test_key(), None).unwrap();
    vault.store_plan(plan("a", 1)).unwrap();
    vault.store_plan(plan("b", 2)).unwrap();
    let before = vault.list_plans().unwrap();
    assert_eq!(vault.delete_plan("missing"), Ok(()));
    assert_eq!(vault.list_plans().unwrap(), before);
}

#[test]
fn delete_removes_entry() {
    let mut vault = PlanVault::open(test_key(), None).unwrap();
    vault.store_plan(plan("a", 1)).unwrap();
    vault.store_plan(plan("b", 2)).unwrap();
    vault.delete_plan("a").unwrap();
    let plans = vault.list_plans().unwrap();
    assert_eq!(plans.len(), 1);
    assert_eq!(plan_id(&plans[0]), "b");
}

#[test]
fn empty_blob_means_empty_vault() {
    let vault = PlanVault::open(test_key(), Some(Vec::new())).unwrap();
    assert_eq!(vault.list_plans().unwrap().len(), 0);
}

#[test]
fn seal_and_reopen_round_trips() {
    let mut vault = PlanVault::open(test_key(), None).unwrap();
    vault.store_plan(plan("a", 1)).unwrap();
    vault.store_plan(plan("b", 2)).unwrap();
    let blob = vault.seal().unwrap();
    let again = PlanVault::open(test_key(), Some(blob)).unwrap();
    assert_eq!(again.list_plans().unwrap(), vault.list_plans().unwrap());
    let reopened = vault.reopened().unwrap();
    assert_eq!(reopened.list_plans().unwrap(), vault.list_plans().unwrap());
}

#[test]
fn tampered_blob_fails_to_decrypt() {
    let mut vault = PlanVault::open(test_key(), None).unwrap();
    vault.store_plan(plan("a", 1)).unwrap();
    let mut blob = vault.seal().unwrap();
    let last = blob.len() - 1;
    blob[last] ^= 1;
    assert!(matches!(
        PlanVault::open(test_key(), Some(blob)),
        Err(VaultError::DecryptFailed)
    ));
    let stub: Vec<u8> = vec![1, 2, 3];
    assert!(matches!(
        PlanVault::open(test_key(), Some(stub)),
        Err(VaultError::CiphertextTooShort)
    ));
}

#[test]
fn decrypt_rejects_tampered_and_short_blobs() {
    let key = test_key();
    let plaintext: Vec<u8> = b"attack at dawn".to_vec();
    let blob = encrypt(&key, &plaintext).unwrap();
    assert_ne!(blob, plaintext);
    assert_eq!(decrypt(&key, &blob), Ok(plaintext.clone()));
    let mut tampered = blob.clone();
    let last = tampered.len() - 1;
    tampered[last] ^= 1;
    assert_eq!(decrypt(&key, &tampered), Err(VaultError::DecryptFailed));
    let short: Vec<u8> = vec![0u8; 11];
    assert_eq!(decrypt(&key, &short), Err(VaultError::CiphertextTooShort));
}

#[test]
fn two_encryptions_use_fresh_nonces() {
    let key = test_key();
    let plaintext: Vec<u8> = b"same payload".to_vec();
    let one = encrypt(&key, &plaintext).unwrap();
    let two = encrypt(&key, &plaintext).unwrap();
    assert_ne!(&one[0..12], &two[0..12]);
}

#[test]
fn wrong_key_fails_to_decrypt() {
    let key = test_key();
    let plaintext: Vec<u8> = b"secret".to_vec();
    let blob = encrypt(&key, &plaintext).unwrap();
    let other: Vec<u8> = (1u8..33u8).collect();
    assert_eq!(decrypt(&other, &blob), Err(VaultError::DecryptFailed));
}

#[test]
fn key_round_trips_through_encoding() {
    let key = test_key();
    let encoded = b64_encode(&key);
    assert_ne!(encoded.as_bytes(), key.as_slice());
    assert_eq!(key_from_secret(&encoded), Ok(key.clone()));
    assert_eq!(key_from_secret(&encoded), Ok(key.clone()));
    assert_eq!(key_round_trip(&key), Ok(key));
}

#[test]
fn bad_key_material_is_rejected() {
    assert_eq!(
        key_from_secret("not base64!"),
        Err(VaultError::InvalidKeyMaterial)
    );
    assert_eq!(
        key_from_secret("AAAA"),
        Err(VaultError::UnexpectedKeyLength)
    );
}

#[test]
fn error_messages_match() {
    assert_eq!(VaultError::MissingId.message(), "Plan summary missing id");
    assert_eq!(VaultError::DecryptFailed.message(), "Failed to decrypt");
    assert_eq!(
        VaultError::UnexpectedKeyLength.message(),
        "Unexpected key length"
    );
    assert_eq!(
        VaultError::CiphertextTooShort.message(),
        "Ciphertext too short"
    );
}
