//! The encrypted plan vault: the AES-256-GCM cipher codec, the key
//! lifecycle backed by the OS credential store, and the bounded
//! dedup-by-id list of plan captures.

use vstd::prelude::*;
use crate::json::{
    extract_id, json_list_parses, plans_from_slice, plans_to_json, plans_to_vec, record_id,
};
use aes_gcm::aead::Aead;
use aes_gcm::aead::KeyInit;
use rand::RngCore;

verus! {

/// Upper bound on retained plan captures.
pub const MAX_PLANS: usize = 50;

/// Length in bytes of the vault key.
pub const KEY_LEN: usize = 32;

/// Length in bytes of the random nonce prefixed to every encrypted blob.
pub const NONCE_LEN: usize = 12;

/// Length in bytes of the authentication tag AES-256-GCM appends.
pub const TAG_LEN: usize = 16;

/// Largest plaintext AES-256-GCM accepts, in bytes.
pub const PLAINTEXT_MAX: u64 = 1u64 << 36;

/// Credential-store service name under which the vault key is kept.
pub const KEY_SERVICE: &'static str = "HuaweiPlanVisualizer";

/// Credential-store account name under which the vault key is kept.
pub const KEY_ACCOUNT: &'static str = "plan_vault_key";

/// Everything that can go wrong in the vault subsystem.
#[derive(Clone, Copy, PartialEq, Eq, Structural, Debug)]
pub enum VaultError {
    /// The plan document carries no `summary.id`.
    MissingId,
    /// The entry list could not be serialized.
    SerializeFailed,
    /// The decrypted vault payload is not a list of documents.
    InvalidPayload,
    /// Encryption failed.
    EncryptFailed,
    /// Authentication failed on decryption.
    DecryptFailed,
    /// The blob is shorter than a nonce.
    CiphertextTooShort,
    /// The stored secret is not valid base64.
    InvalidKeyMaterial,
    /// The stored key does not decode to exactly `KEY_LEN` bytes.
    UnexpectedKeyLength,
    /// No credential store is available.
    KeyringUnavailable,
    /// The fresh key could not be written to the credential store.
    KeyStoreFailed,
}

impl VaultError {
    /// The human-readable rendering of this error.
    pub open spec fn message_spec(&self) -> Seq<char> {
        match self {
            VaultError::MissingId => "Plan summary missing id"@,
            VaultError::SerializeFailed => "Unable to serialize plans"@,
            VaultError::InvalidPayload => "Invalid vault payload"@,
            VaultError::EncryptFailed => "Encryption failed"@,
            VaultError::DecryptFailed => "Failed to decrypt"@,
            VaultError::CiphertextTooShort => "Ciphertext too short"@,
            VaultError::InvalidKeyMaterial => "Invalid key material"@,
            VaultError::UnexpectedKeyLength => "Unexpected key length"@,
            VaultError::KeyringUnavailable => "Keyring unavailable"@,
            VaultError::KeyStoreFailed => "Failed to store key material"@,
        }
    }

    /// A human-readable message for the error.
    pub fn message(&self) -> (r: String)
        ensures
            r@ == self.message_spec(),
    {
        match self {
            VaultError::MissingId => "Plan summary missing id".to_owned(),
            VaultError::SerializeFailed => "Unable to serialize plans".to_owned(),
            VaultError::InvalidPayload => "Invalid vault payload".to_owned(),
            VaultError::EncryptFailed => "Encryption failed".to_owned(),
            VaultError::DecryptFailed => "Failed to decrypt".to_owned(),
            VaultError::CiphertextTooShort => "Ciphertext too short".to_owned(),
            VaultError::InvalidKeyMaterial => "Invalid key material".to_owned(),
            VaultError::UnexpectedKeyLength => "Unexpected key length".to_owned(),
            VaultError::KeyringUnavailable => "Keyring unavailable".to_owned(),
            VaultError::KeyStoreFailed => "Failed to store key material".to_owned(),
        }
    }
}

/// The canonical RFC 4648 base64 encoding (with padding) of `bs`.
pub uninterp spec fn b64_of(bs: Seq<u8>) -> Seq<char>;

/// Relies on `data_encoding::BASE64.encode`.
#[verifier::external_body]
pub fn b64_encode(bs: &Vec<u8>) -> (r: String)
    ensures
        r@ == b64_of(bs@),
{
    data_encoding::BASE64.encode(bs.as_slice())
}

/// Relies on `data_encoding::BASE64.decode`: it accepts exactly the
/// canonical encodings and inverts `encode`.
#[verifier::external_body]
pub fn b64_decode(s: &str) -> (r: Option<Vec<u8>>)
    ensures
        r matches Some(bs) ==> s@ == b64_of(bs@),
        forall|bs: Seq<u8>| s@ == #[trigger] b64_of(bs) ==> r is Some && r->Some_0@ == bs,
{
    match data_encoding::BASE64.decode(s.as_bytes()) {
        Ok(bs) => Some(bs),
        Err(_) => None,
    }
}

/// The AES-256-GCM sealing (ciphertext with its appended tag) of `pt`
/// under `key` and `nonce`.
pub uninterp spec fn gcm_seal(key: Seq<u8>, nonce: Seq<u8>, pt: Seq<u8>) -> Seq<u8>;

/// What AES-256-GCM decryption yields for `ct` under `key` and `nonce`:
/// the plaintext when authentication succeeds, nothing otherwise.
pub uninterp spec fn gcm_open(key: Seq<u8>, nonce: Seq<u8>, ct: Seq<u8>) -> Option<Seq<u8>>;

/// Relies on `aes_gcm::Aes256Gcm` (`Aead::encrypt`): the result is a
/// function of key, nonce and plaintext alone; it is the ciphertext with
/// a 16-byte tag appended, and it fails only above the plaintext bound.
#[verifier::external_body]
fn gcm_encrypt(key: &[u8], nonce: &[u8], pt: &[u8]) -> (r: Option<Vec<u8>>)
    requires
        key@.len() == 32,
        nonce@.len() == 12,
    ensures
        r matches Some(ct) ==> ct@ == gcm_seal(key@, nonce@, pt@)
            && ct@.len() == pt@.len() + TAG_LEN,
        pt@.len() <= PLAINTEXT_MAX ==> r is Some,
{
    let cipher = aes_gcm::Aes256Gcm::new(aes_gcm::Key::<aes_gcm::Aes256Gcm>::from_slice(key));
    match cipher.encrypt(aes_gcm::Nonce::<aes_gcm::aes::cipher::consts::U12>::from_slice(nonce), pt) {
        Ok(ct) => Some(ct),
        Err(_) => None,
    }
}

/// Relies on `aes_gcm::Aes256Gcm` (`Aead::decrypt`): decryption is a
/// function of key, nonce and ciphertext, and inverts `encrypt`.
#[verifier::external_body]
fn gcm_decrypt(key: &[u8], nonce: &[u8], ct: &[u8]) -> (r: Option<Vec<u8>>)
    requires
        key@.len() == 32,
        nonce@.len() == 12,
    ensures
        match r {
            Some(pt) => gcm_open(key@, nonce@, ct@) == Some(pt@),
            None => gcm_open(key@, nonce@, ct@) is None,
        },
        forall|pt: Seq<u8>|
            ct@ == #[trigger] gcm_seal(key@, nonce@, pt) ==> r is Some && r->Some_0@ == pt,
{
    let cipher = aes_gcm::Aes256Gcm::new(aes_gcm::Key::<aes_gcm::Aes256Gcm>::from_slice(key));
    match cipher.decrypt(aes_gcm::Nonce::<aes_gcm::aes::cipher::consts::U12>::from_slice(nonce), ct) {
        Ok(pt) => Some(pt),
        Err(_) => None,
    }
}

/// Relies on `rand::rngs::OsRng` (`fill_bytes`): fresh random bytes;
/// nothing is promised of their values.
#[verifier::external_body]
pub fn random_bytes(n: usize) -> (r: Vec<u8>)
    ensures
        r@.len() == n as nat,
{
    let mut buf = vec![0u8; n];
    rand::rngs::OsRng.fill_bytes(&mut buf);
    buf
}

/// Lets `keyring::Entry` stand in verified signatures.
#[verifier::external_type_specification]
#[verifier::external_body]
pub struct ExEntry(keyring::Entry);

/// Relies on `keyring::Entry::new`: opens the credential-store entry;
/// fails when no credential store is available.
#[verifier::external_body]
fn entry_new(service: &str, account: &str) -> (r: Option<keyring::Entry>)
{
    match keyring::Entry::new(service, account) {
        Ok(e) => Some(e),
        Err(_) => None,
    }
}

/// Relies on `keyring::Entry::get_password`: whatever secret the store
/// holds; the result depends on the store's state.
#[verifier::external_body]
fn get_secret(entry: &keyring::Entry) -> (r: Option<String>)
{
    match entry.get_password() {
        Ok(s) => Some(s),
        Err(_) => None,
    }
}

/// Relies on `keyring::Entry::set_password`: stores the secret; nothing is
/// promised of the store.
#[verifier::external_body]
fn set_secret(entry: &keyring::Entry, secret: &str) -> (r: bool)
{
    entry.set_password(secret).is_ok()
}

/// Decodes a stored secret into the vault key. A wrong decoded length is
/// fatal and never silently regenerated, so existing encrypted data is
/// not orphaned.
pub fn key_from_secret(secret: &str) -> (r: Result<Vec<u8>, VaultError>)
    ensures
        r matches Ok(k) ==> k@.len() == KEY_LEN && secret@ == b64_of(k@),
        forall|bs: Seq<u8>|
            secret@ == #[trigger] b64_of(bs) && bs.len() == KEY_LEN ==> r is Ok && r->Ok_0@ == bs,
        (forall|bs: Seq<u8>| secret@ != #[trigger] b64_of(bs)) ==> (r matches Err(e)
            && e == VaultError::InvalidKeyMaterial),
        forall|bs: Seq<u8>|
            secret@ == #[trigger] b64_of(bs) && bs.len() != KEY_LEN ==> (r matches Err(e)
                && e == VaultError::UnexpectedKeyLength),
        r matches Err(e) ==> (e == VaultError::InvalidKeyMaterial
            || e == VaultError::UnexpectedKeyLength),
{
    match b64_decode(secret) {
        Some(bs) => {
            if bs.len() == KEY_LEN {
                Ok(bs)
            } else {
                Err(VaultError::UnexpectedKeyLength)
            }
        },
        None => Err(VaultError::InvalidKeyMaterial),
    }
}

/// Returns the stable vault key: reads it from the OS credential store,
/// or creates a fresh random one, stores it base64-encoded, and returns it
/// on first use.
pub fn fetch_or_create_key() -> (r: Result<Vec<u8>, VaultError>)
    ensures
        r matches Ok(k) ==> k@.len() == KEY_LEN,
{
    let entry = match entry_new(KEY_SERVICE, KEY_ACCOUNT) {
        Some(e) => e,
        None => {
            return Err(VaultError::KeyringUnavailable);
        },
    };
    match get_secret(&entry) {
        Some(secret) => key_from_secret(secret.as_str()),
        None => {
            let key = random_bytes(KEY_LEN);
            let encoded = b64_encode(&key);
            if set_secret(&entry, encoded.as_str()) {
                Ok(key)
            } else {
                Err(VaultError::KeyStoreFailed)
            }
        },
    }
}

/// Law: the key round-trips through its credential-store encoding —
/// decoding `b64_encode(key)` yields exactly `key` again, so a key read
/// back by a second vault instance is byte-identical.
pub fn key_round_trip(key: &Vec<u8>) -> (r: Result<Vec<u8>, VaultError>)
    requires
        key@.len() == KEY_LEN,
    ensures
        r matches Ok(k) && k@ == key@,
{
    let encoded = b64_encode(key);
    key_from_secret(encoded.as_str())
}

/// Encrypts `plaintext` as nonce ‖ AES-256-GCM ciphertext, drawing a
/// fresh random 12-byte nonce on every call.
pub fn encrypt(key: &Vec<u8>, plaintext: &Vec<u8>) -> (r: Result<Vec<u8>, VaultError>)
    requires
        key@.len() == KEY_LEN,
    ensures
        r matches Ok(blob) ==> exists|n: Seq<u8>|
            n.len() == NONCE_LEN && blob@ == n + gcm_seal(key@, n, plaintext@),
        r matches Ok(blob) ==> blob@.len() == plaintext@.len() + NONCE_LEN + TAG_LEN,
        plaintext@.len() <= PLAINTEXT_MAX ==> r is Ok,
        r matches Err(e) ==> e == VaultError::EncryptFailed,
{
    let nonce = random_bytes(NONCE_LEN);
    let ghost n = nonce@;
    let ct = match gcm_encrypt(key.as_slice(), nonce.as_slice(), plaintext.as_slice()) {
        Some(ct) => ct,
        None => {
            return Err(VaultError::EncryptFailed);
        },
    };
    let mut blob = nonce;
    let mut tail = ct;
    blob.append(&mut tail);
    proof {
        assert(blob@ == n + gcm_seal(key@, n, plaintext@));
    }
    Ok(blob)
}

/// Splits the 12-byte nonce off `blob` and opens the remainder; fails on
/// a short blob or when authentication fails, and never returns partial
/// plaintext.
pub fn decrypt(key: &Vec<u8>, blob: &Vec<u8>) -> (r: Result<Vec<u8>, VaultError>)
    requires
        key@.len() == KEY_LEN,
    ensures
        blob@.len() < NONCE_LEN ==> (r matches Err(e) && e == VaultError::CiphertextTooShort),
        r matches Ok(pt) ==> blob@.len() >= NONCE_LEN
            && gcm_open(key@, blob@.take(NONCE_LEN as int), blob@.skip(NONCE_LEN as int))
                == Some(pt@),
        blob@.len() >= NONCE_LEN
            && gcm_open(key@, blob@.take(NONCE_LEN as int), blob@.skip(NONCE_LEN as int)) is None
            ==> (r matches Err(e) && e == VaultError::DecryptFailed),
        forall|pt: Seq<u8>|
            blob@.len() >= NONCE_LEN
                && blob@.skip(NONCE_LEN as int)
                    == #[trigger] gcm_seal(key@, blob@.take(NONCE_LEN as int), pt)
                ==> r is Ok && r->Ok_0@ == pt,
        r is Err ==> blob@.len() < NONCE_LEN
            || gcm_open(key@, blob@.take(NONCE_LEN as int), blob@.skip(NONCE_LEN as int)) is None,
{
    if blob.len() < NONCE_LEN {
        return Err(VaultError::CiphertextTooShort);
    }
    let nonce = vstd::slice::slice_subrange(blob.as_slice(), 0, NONCE_LEN);
    let payload = vstd::slice::slice_subrange(blob.as_slice(), NONCE_LEN, blob.len());
    match gcm_decrypt(key.as_slice(), nonce, payload) {
        Some(pt) => Ok(pt),
        None => Err(VaultError::DecryptFailed),
    }
}

/// The entries of `s` whose id differs from `id`, in order.
pub open spec fn without_id(s: Seq<serde_json::Value>, id: Option<Seq<char>>) -> Seq<
    serde_json::Value,
>
    decreases s.len(),
{
    if s.len() == 0 {
        s
    } else if record_id(s.first()) == id {
        without_id(s.drop_first(), id)
    } else {
        seq![s.first()] + without_id(s.drop_first(), id)
    }
}

/// The list after storing `p`: `p` in front, entries bearing the same id
/// removed, and the whole clipped to `cap` entries.
pub open spec fn store_result(
    s: Seq<serde_json::Value>,
    p: serde_json::Value,
    cap: int,
) -> Seq<serde_json::Value> {
    let all = seq![p] + without_id(s, record_id(p));
    if all.len() <= cap {
        all
    } else {
        all.take(cap)
    }
}

proof fn lemma_without_id_push(s: Seq<serde_json::Value>, id: Option<Seq<char>>, x: serde_json::Value)
    ensures
        without_id(s.push(x), id) == if record_id(x) == id {
            without_id(s, id)
        } else {
            without_id(s, id).push(x)
        },
    decreases s.len(),
{
    if s.len() == 0 {
        assert(s.push(x).first() == x);
        assert(s.push(x).drop_first() =~= Seq::<serde_json::Value>::empty());
        if record_id(x) != id {
            assert(seq![x] + without_id(Seq::<serde_json::Value>::empty(), id)
                =~= without_id(s, id).push(x));
        }
    } else {
        assert(s.push(x).first() == s.first());
        assert(s.push(x).drop_first() =~= s.drop_first().push(x));
        lemma_without_id_push(s.drop_first(), id, x);
        if record_id(s.first()) != id {
            if record_id(x) == id {
            } else {
                assert(seq![s.first()] + without_id(s.drop_first(), id).push(x)
                    =~= (seq![s.first()] + without_id(s.drop_first(), id)).push(x));
            }
        }
    }
}

proof fn lemma_without_id_removes(s: Seq<serde_json::Value>, id: Option<Seq<char>>)
    ensures
        forall|i: int|
            0 <= i < without_id(s, id).len() ==> #[trigger] record_id(without_id(s, id)[i]) != id,
    decreases s.len(),
{
    if s.len() > 0 {
        lemma_without_id_removes(s.drop_first(), id);
    }
}

proof fn lemma_without_id_absent(s: Seq<serde_json::Value>, id: Option<Seq<char>>)
    requires
        forall|i: int| 0 <= i < s.len() ==> #[trigger] record_id(s[i]) != id,
    ensures
        without_id(s, id) == s,
    decreases s.len(),
{
    if s.len() > 0 {
        assert(record_id(s[0]) != id);
        assert forall|i: int|
            0 <= i < s.drop_first().len() implies #[trigger] record_id(s.drop_first()[i]) != id by {
            assert(s.drop_first()[i] == s[i + 1]);
        }
        lemma_without_id_absent(s.drop_first(), id);
        assert(seq![s.first()] + s.drop_first() =~= s);
    }
}

/// Law: deleting an id that no entry bears leaves the list unchanged.
pub proof fn lemma_delete_missing_is_noop(s: Seq<serde_json::Value>, id: Seq<char>)
    requires
        forall|i: int| 0 <= i < s.len() ==> #[trigger] record_id(s[i]) != Some(id),
    ensures
        without_id(s, Some(id)) == s,
{
    lemma_without_id_absent(s, Some(id));
}

/// Law: storing two plans with one id in succession retains exactly one
/// entry for that id — the second content, in front.
pub proof fn lemma_store_refreshes(
    s: Seq<serde_json::Value>,
    p1: serde_json::Value,
    p2: serde_json::Value,
    cap: int,
)
    requires
        record_id(p1) == record_id(p2),
        record_id(p2) is Some,
        cap >= 1,
    ensures
        store_result(store_result(s, p1, cap), p2, cap)[0] == p2,
        forall|i: int|
            1 <= i < store_result(store_result(s, p1, cap), p2, cap).len()
                ==> #[trigger] record_id(store_result(store_result(s, p1, cap), p2, cap)[i])
                    != record_id(p2),
{
    let t = store_result(s, p1, cap);
    let w = without_id(t, record_id(p2));
    lemma_without_id_removes(t, record_id(p2));
    assert(store_result(t, p2, cap)[0] == (seq![p2] + w)[0]);
    assert forall|i: int|
        1 <= i < store_result(t, p2, cap).len()
            implies #[trigger] record_id(store_result(t, p2, cap)[i]) != record_id(p2) by {
        assert(store_result(t, p2, cap)[i] == (seq![p2] + w)[i]);
        assert((seq![p2] + w)[i] == w[i - 1]);
    }
}

/// The vault contents after storing `plans` in sequence, oldest first,
/// into a vault holding `init`.
pub open spec fn store_all(
    init: Seq<serde_json::Value>,
    plans: Seq<serde_json::Value>,
    cap: int,
) -> Seq<serde_json::Value>
    decreases plans.len(),
{
    if plans.len() == 0 {
        init
    } else {
        store_all(store_result(init, plans.first(), cap), plans.drop_first(), cap)
    }
}

/// Every plan bears an id, and no two bear the same one.
pub open spec fn distinct_ids(plans: Seq<serde_json::Value>) -> bool {
    &&& forall|i: int| 0 <= i < plans.len() ==> #[trigger] record_id(plans[i]) is Some
    &&& forall|i: int, j: int|
        #![trigger record_id(plans[i]), record_id(plans[j])]
        0 <= i < j < plans.len() ==> record_id(plans[i]) != record_id(plans[j])
}

/// The `cap` most recently stored of `plans`, most recent first.
pub open spec fn retained(plans: Seq<serde_json::Value>, cap: int) -> Seq<serde_json::Value> {
    if plans.len() <= cap {
        plans.reverse()
    } else {
        plans.reverse().take(cap)
    }
}

proof fn lemma_store_all_distinct(
    done: Seq<serde_json::Value>,
    plans: Seq<serde_json::Value>,
    cap: int,
)
    requires
        cap >= 1,
        distinct_ids(done + plans),
    ensures
        store_all(retained(done, cap), plans, cap) == retained(done + plans, cap),
    decreases plans.len(),
{
    if plans.len() == 0 {
        assert(done + plans =~= done);
    } else {
        let p = plans.first();
        let acc = retained(done, cap);
        let stepped = done.push(p);
        assert(p == (done + plans)[done.len() as int]);
        assert forall|i: int| 0 <= i < acc.len() implies #[trigger] record_id(acc[i])
            != record_id(p) by {
            assert(acc[i] == done.reverse()[i]);
            assert(done.reverse()[i] == done[done.len() - 1 - i]);
            assert(done[done.len() - 1 - i] == (done + plans)[done.len() - 1 - i]);
        }
        lemma_without_id_absent(acc, record_id(p));
        assert(stepped.reverse() =~= seq![p] + done.reverse());
        if done.len() < cap {
            assert(store_result(acc, p, cap) == retained(stepped, cap));
        } else {
            assert((seq![p] + acc).take(cap) =~= seq![p] + done.reverse().take(cap - 1));
            assert(stepped.reverse().take(cap) =~= seq![p] + done.reverse().take(cap - 1));
            assert(store_result(acc, p, cap) == retained(stepped, cap));
        }
        assert(stepped + plans.drop_first() =~= done + plans);
        lemma_store_all_distinct(stepped, plans.drop_first(), cap);
    }
}

/// Law: storing plans with pairwise-distinct ids in sequence into an
/// empty vault retains exactly the `cap` most recently stored, most
/// recent first; once more than `cap` have been stored, the least
/// recently stored id is absent.
pub proof fn lemma_store_sequence(plans: Seq<serde_json::Value>, cap: int)
    requires
        cap >= 1,
        distinct_ids(plans),
    ensures
        store_all(Seq::<serde_json::Value>::empty(), plans, cap) == retained(plans, cap),
        plans.len() > cap ==> forall|j: int|
            0 <= j < cap ==> #[trigger] record_id(retained(plans, cap)[j])
                != record_id(plans[0]),
{
    let empty = Seq::<serde_json::Value>::empty();
    assert(empty + plans =~= plans);
    assert(distinct_ids(empty + plans));
    assert(retained(empty, cap) =~= empty);
    lemma_store_all_distinct(empty, plans, cap);
    if plans.len() > cap {
        assert forall|j: int| 0 <= j < cap implies #[trigger] record_id(retained(plans, cap)[j])
            != record_id(plans[0]) by {
            assert(retained(plans, cap)[j] == plans.reverse()[j]);
            assert(plans.reverse()[j] == plans[plans.len() - 1 - j]);
            assert(plans.len() - 1 - j > 0);
        }
    }
}

/// Law: storing a plan with a fresh id into a full list evicts exactly the
/// last (least recently stored) entry.
pub proof fn lemma_store_evicts(s: Seq<serde_json::Value>, p: serde_json::Value, cap: int)
    requires
        record_id(p) is Some,
        forall|i: int| 0 <= i < s.len() ==> #[trigger] record_id(s[i]) != record_id(p),
        s.len() == cap,
        cap >= 1,
    ensures
        store_result(s, p, cap) == seq![p] + s.take(cap - 1),
{
    lemma_without_id_absent(s, record_id(p));
    assert((seq![p] + s).take(cap) =~= seq![p] + s.take(cap - 1));
}

/// The encrypted plan vault: a key and the retained plan documents,
/// most recent first.
pub struct PlanVault {
    key: Vec<u8>,
    entries: Vec<serde_json::Value>,
}

impl PlanVault {
    /// The vault key.
    pub closed spec fn key_view(&self) -> Seq<u8> {
        self.key@
    }

    /// The retained plan documents, most recent first.
    pub closed spec fn entries_view(&self) -> Seq<serde_json::Value> {
        self.entries@
    }

    /// Well-formed: the key has the required length.
    pub open spec fn wf(&self) -> bool {
        self.key_view().len() == KEY_LEN
    }

    /// Opens a vault over `key` from the encrypted vault-file contents
    /// (an absent or empty file means an empty vault, not an error).
    pub fn open(key: Vec<u8>, blob: Option<Vec<u8>>) -> (r: Result<PlanVault, VaultError>)
        requires
            key@.len() == KEY_LEN,
        ensures
            r matches Ok(v) ==> v.wf() && v.key_view() == key@,
            (blob is None || blob->Some_0@.len() == 0) ==> (r matches Ok(v)
                && v.entries_view().len() == 0),
            forall|n: Seq<u8>, es: Seq<serde_json::Value>|
                blob matches Some(b) && n.len() == NONCE_LEN
                    && b@ == n + #[trigger] gcm_seal(key@, n, plans_to_json(es))
                    && json_list_parses(plans_to_json(es))
                    ==> r is Ok && r->Ok_0.entries_view() == es,
            forall|n: Seq<u8>, es: Seq<serde_json::Value>|
                blob matches Some(b) && n.len() == NONCE_LEN
                    && b@ == n + #[trigger] gcm_seal(key@, n, plans_to_json(es)) && r is Ok
                    ==> r->Ok_0.entries_view() == es,
            (blob matches Some(b) && 0 < b@.len() < NONCE_LEN) ==> (r matches Err(e)
                && e == VaultError::CiphertextTooShort),
            (blob matches Some(b) && b@.len() >= NONCE_LEN
                && gcm_open(key@, b@.take(NONCE_LEN as int), b@.skip(NONCE_LEN as int)) is None)
                ==> (r matches Err(e) && e == VaultError::DecryptFailed),
            (blob matches Some(b) && b@.len() >= NONCE_LEN
                && gcm_open(key@, b@.take(NONCE_LEN as int), b@.skip(NONCE_LEN as int)) is Some
                && !json_list_parses(
                    gcm_open(key@, b@.take(NONCE_LEN as int), b@.skip(NONCE_LEN as int))->Some_0,
                )) ==> (r matches Err(e) && e == VaultError::InvalidPayload),
    {
        let b = match blob {
            Some(b) => b,
            None => {
                return Ok(PlanVault { key, entries: Vec::new() });
            },
        };
        if b.len() == 0 {
            return Ok(PlanVault { key, entries: Vec::new() });
        }
        let pt = match decrypt(&key, &b) {
            Ok(pt) => pt,
            Err(e) => {
                proof {
                    assert forall|n: Seq<u8>, es: Seq<serde_json::Value>|
                        n.len() == NONCE_LEN
                            && b@ == n + #[trigger] gcm_seal(key@, n, plans_to_json(es))
                            implies false by {
                        assert(b@.take(NONCE_LEN as int) =~= n);
                        assert(b@.skip(NONCE_LEN as int) =~= gcm_seal(key@, n, plans_to_json(es)));
                    }
                }
                return Err(e);
            },
        };
        let entries = match plans_from_slice(pt.as_slice()) {
            Some(es) => es,
            None => {
                proof {
                    assert forall|n: Seq<u8>, es: Seq<serde_json::Value>|
                        n.len() == NONCE_LEN
                            && b@ == n + #[trigger] gcm_seal(key@, n, plans_to_json(es))
                            && json_list_parses(plans_to_json(es))
                            implies false by {
                        assert(b@.take(NONCE_LEN as int) =~= n);
                        assert(b@.skip(NONCE_LEN as int) =~= gcm_seal(key@, n, plans_to_json(es)));
                    }
                }
                return Err(VaultError::InvalidPayload);
            },
        };
        proof {
            assert forall|n: Seq<u8>, es: Seq<serde_json::Value>|
                n.len() == NONCE_LEN && b@ == n + #[trigger] gcm_seal(key@, n, plans_to_json(es))
                    implies entries@ == es by {
                assert(b@.take(NONCE_LEN as int) =~= n);
                assert(b@.skip(NONCE_LEN as int) =~= gcm_seal(key@, n, plans_to_json(es)));
            }
        }
        Ok(PlanVault { key, entries })
    }

    /// Serializes and encrypts the entries as one blob: a fresh random
    /// nonce followed by the AES-256-GCM ciphertext of the JSON list.
    pub fn seal(&self) -> (r: Result<Vec<u8>, VaultError>)
        requires
            self.wf(),
        ensures
            r matches Ok(b) ==> exists|n: Seq<u8>|
                n.len() == NONCE_LEN
                    && b@ == n + gcm_seal(self.key_view(), n, plans_to_json(self.entries_view())),
            plans_to_json(self.entries_view()).len() <= PLAINTEXT_MAX ==> r is Ok,
    {
        let pt = match plans_to_vec(&self.entries) {
            Some(p) => p,
            None => {
                return Err(VaultError::SerializeFailed);
            },
        };
        encrypt(&self.key, &pt)
    }

    /// Law: persistence round trip — sealing the vault and opening the
    /// blob again with the same key yields the same entries, and is owed
    /// to succeed whenever the serialized list is within the cipher's
    /// size bound and the parser's acceptance.
    pub fn reopened(&self) -> (r: Result<PlanVault, VaultError>)
        requires
            self.wf(),
        ensures
            r matches Ok(v) ==> v.wf() && v.key_view() == self.key_view()
                && v.entries_view() == self.entries_view(),
            (plans_to_json(self.entries_view()).len() <= PLAINTEXT_MAX
                && json_list_parses(plans_to_json(self.entries_view()))) ==> r is Ok,
    {
        let blob = match self.seal() {
            Ok(b) => b,
            Err(e) => {
                return Err(e);
            },
        };
        let key2 = copy_bytes(&self.key);
        PlanVault::open(key2, Some(blob))
    }

    /// Stores a plan: any entry bearing the same id is removed, the plan
    /// goes to the front, and the list is clipped to `MAX_PLANS` entries.
    /// Fails exactly when the plan carries no `summary.id`.
    pub fn store_plan(&mut self, plan: serde_json::Value) -> (r: Result<(), VaultError>)
        requires
            old(self).wf(),
        ensures
            final(self).wf() && final(self).key_view() == old(self).key_view(),
            record_id(plan) is None ==> (r matches Err(e) && e == VaultError::MissingId)
                && final(self).entries_view() == old(self).entries_view(),
            record_id(plan) is Some ==> r is Ok
                && final(self).entries_view() == store_result(
                    old(self).entries_view(), plan, MAX_PLANS as int),
            r is Ok ==> final(self).entries_view().len() <= MAX_PLANS,
    {
        let ghost gplan = plan;
        let id = match extract_id(&plan) {
            Some(id) => id,
            None => {
                return Err(VaultError::MissingId);
            },
        };
        let mut out: Vec<serde_json::Value> = Vec::new();
        out.push(plan);
        let n = self.entries.len();
        let mut i: usize = 0;
        while i < n
            invariant
                i <= n,
                n == self.entries@.len(),
                record_id(gplan) == Some(id@),
                out@ == seq![gplan] + without_id(self.entries@.take(i as int), record_id(gplan)),
            decreases n - i,
        {
            let e = &self.entries[i];
            let keep: bool = match extract_id(e) {
                Some(eid) => !(eid == id),
                None => true,
            };
            proof {
                assert(self.entries@.take(i + 1) =~= self.entries@.take(i as int).push(
                    self.entries@[i as int]));
                lemma_without_id_push(
                    self.entries@.take(i as int), record_id(gplan), self.entries@[i as int]);
            }
            if keep {
                out.push(e.clone());
                proof {
                    assert(out@ =~= seq![gplan] + without_id(
                        self.entries@.take(i + 1), record_id(gplan)));
                }
            }
            i = i + 1;
        }
        proof {
            assert(self.entries@.take(n as int) =~= self.entries@);
        }
        if out.len() > MAX_PLANS {
            out.truncate(MAX_PLANS);
        }
        self.entries = out;
        Ok(())
    }

    /// Returns the retained plans, most recent first.
    pub fn list_plans(&self) -> (r: Result<Vec<serde_json::Value>, VaultError>)
        ensures
            r matches Ok(es) && es@ == self.entries_view(),
    {
        let mut out: Vec<serde_json::Value> = Vec::new();
        let n = self.entries.len();
        let mut i: usize = 0;
        while i < n
            invariant
                i <= n,
                n == self.entries@.len(),
                out@ == self.entries@.take(i as int),
            decreases n - i,
        {
            out.push(self.entries[i].clone());
            proof {
                assert(self.entries@.take(i + 1) =~= self.entries@.take(i as int).push(
                    self.entries@[i as int]));
            }
            i = i + 1;
        }
        proof {
            assert(self.entries@.take(n as int) =~= self.entries@);
        }
        Ok(out)
    }

    /// Removes every entry whose id equals `plan_id`; an absent id is a
    /// no-op, not an error.
    pub fn delete_plan(&mut self, plan_id: &str) -> (r: Result<(), VaultError>)
        requires
            old(self).wf(),
        ensures
            final(self).wf() && final(self).key_view() == old(self).key_view(),
            r is Ok,
            final(self).entries_view() == without_id(old(self).entries_view(), Some(plan_id@)),
    {
        let target = plan_id.to_owned();
        let mut out: Vec<serde_json::Value> = Vec::new();
        let n = self.entries.len();
        let mut i: usize = 0;
        while i < n
            invariant
                i <= n,
                n == self.entries@.len(),
                target@ == plan_id@,
                out@ == without_id(self.entries@.take(i as int), Some(plan_id@)),
            decreases n - i,
        {
            let e = &self.entries[i];
            let keep: bool = match extract_id(e) {
                Some(eid) => !(eid == target),
                None => true,
            };
            proof {
                assert(self.entries@.take(i + 1) =~= self.entries@.take(i as int).push(
                    self.entries@[i as int]));
                lemma_without_id_push(
                    self.entries@.take(i as int), Some(plan_id@), self.entries@[i as int]);
            }
            if keep {
                out.push(e.clone());
                proof {
                    assert(out@ =~= without_id(self.entries@.take(i + 1), Some(plan_id@)));
                }
            }
            i = i + 1;
        }
        proof {
            assert(self.entries@.take(n as int) =~= self.entries@);
        }
        self.entries = out;
        Ok(())
    }
}

/// A verified byte-for-byte copy of a vector.
fn copy_bytes(v: &Vec<u8>) -> (r: Vec<u8>)
    ensures
        r@ == v@,
{
    let mut out: Vec<u8> = Vec::new();
    let n = v.len();
    let mut i: usize = 0;
    while i < n
        invariant
            i <= n,
            n == v@.len(),
            out@ == v@.take(i as int),
        decreases n - i,
    {
        out.push(v[i]);
        proof {
            assert(v@.take(i + 1) =~= v@.take(i as int).push(v@[i as int]));
        }
        i = i + 1;
    }
    proof {
        assert(v@.take(n as int) =~= v@);
    }
    out
}

/// Process-wide owner of the plan vault.
pub struct VaultState {
    inner: PlanVault,
}

impl VaultState {
    /// The vault this state owns.
    pub closed spec fn vault(&self) -> PlanVault {
        self.inner
    }

    /// Creates the vault: fetches or creates the key from the OS
    /// credential store and decodes the current vault-file contents.
    pub fn initialize(blob: Option<Vec<u8>>) -> (r: Result<VaultState, VaultError>)
        ensures
            r matches Ok(st) ==> st.vault().wf(),
            r matches Ok(st) ==> ((blob is None || blob->Some_0@.len() == 0)
                ==> st.vault().entries_view().len() == 0),
    {
        let key = match fetch_or_create_key() {
            Ok(k) => k,
            Err(e) => {
                return Err(e);
            },
        };
        match PlanVault::open(key, blob) {
            Ok(v) => Ok(VaultState { inner: v }),
            Err(e) => Err(e),
        }
    }

    /// Access to the vault: reads see the owned vault, and writes through
    /// the handle land in it.
    pub fn handle(&mut self) -> (r: &mut PlanVault)
        ensures
            *r == old(self).vault(),
            final(self).vault() == *final(r),
    {
        &mut self.inner
    }
}

} // verus!
