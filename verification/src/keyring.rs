//! The keys that protect the local history store: a sealing box per data
//! key, and the key ring that is unwrapped from the store with the local
//! key-encryption key.

use vstd::prelude::*;
use crate::aad::{
    wrapped_key_aad_spec, wrapped_key_associated_data, DATA_KEY_ALGORITHM, DATA_KEY_PURPOSE,
    KEY_WRAP_ALGORITHM,
};
use crate::error::AppError;
use crate::primitives::{fill_random, xchacha_decrypt, xchacha_encrypt, xchacha_open, xchacha_seal};
use crate::ids::{parse_uuid, random_uuid, uuid_parsed};
use crate::primitives::{base64_bytes, base64_decode, base64_encode, base64_text};
use crate::text::concat2;

verus! {

/// Length of a data key or key-encryption key, in bytes.
pub const DATA_KEY_BYTES: usize = 32;

/// A fresh random data key.
pub fn generate_data_key() -> (r: Result<[u8; 32], AppError>)
    ensures
        r matches Err(e) ==> e is Crypto,
{
    let mut key = zeroes(DATA_KEY_BYTES);
    if fill_random(&mut key).is_err() {
        return Err(AppError::Crypto);
    }
    Ok(to_array(key.as_slice()))
}

/// A data key as text: base64 without padding.
pub fn encode_data_key(key: &[u8; 32]) -> (text: String)
    ensures
        text@ == base64_text(key@),
{
    base64_encode(key.as_slice())
}

/// The data key that base64 text (without padding) stands for; anything
/// that is not such text of exactly 32 bytes is refused.
pub fn decode_data_key(encoded: &str) -> (r: Result<[u8; 32], AppError>)
    ensures
        match base64_bytes(encoded@) {
            Some(b) => if b.len() == DATA_KEY_BYTES {
                r matches Ok(k) && k@ == b
            } else {
                r matches Err(AppError::Crypto)
            },
            None => r matches Err(AppError::Crypto),
        },
{
    match base64_decode(encoded) {
        Some(bytes) => if bytes.len() == DATA_KEY_BYTES {
            Ok(to_array(bytes.as_slice()))
        } else {
            Err(AppError::Crypto)
        },
        None => Err(AppError::Crypto),
    }
}

/// Length of an XChaCha20-Poly1305 nonce, in bytes.
pub const NONCE_BYTES: usize = 24;

/// What a sealing box recovers from `ciphertext`: nothing unless the nonce
/// has the right length and the tag authenticates the data.
pub open spec fn box_open(key: Seq<u8>, nonce: Seq<u8>, ciphertext: Seq<u8>, aad: Seq<u8>) -> Option<Seq<u8>> {
    if nonce.len() == NONCE_BYTES {
        xchacha_open(key, nonce, ciphertext, aad)
    } else {
        None
    }
}

/// An array with the bytes of `v`.
pub fn to_array<const N: usize>(v: &[u8]) -> (a: [u8; N])
    requires
        v@.len() == N,
    ensures
        a@ == v@,
{
    let mut a = [0u8; N];
    let mut i: usize = 0;
    while i < N
        invariant
            i <= N,
            v@.len() == N,
            forall|j: int| 0 <= j < i ==> a@[j] == v@[j],
        decreases N - i,
    {
        a[i] = v[i];
        i = i + 1;
    }
    assert(a@ =~= v@);
    a
}

/// A vector of `n` zero bytes.
fn zeroes(n: usize) -> (v: Vec<u8>)
    ensures
        v@.len() == n,
        forall|i: int| 0 <= i < n ==> v@[i] == 0,
{
    let mut v: Vec<u8> = Vec::new();
    let mut i: usize = 0;
    while i < n
        invariant
            i <= n,
            v@.len() == i,
            forall|j: int| 0 <= j < i ==> v@[j] == 0,
        decreases n - i,
    {
        v.push(0u8);
        i = i + 1;
    }
    v
}

/// XChaCha20-Poly1305 under one key.
#[derive(Debug, Clone, Copy)]
pub struct CryptoBox {
    key: [u8; 32],
}

impl CryptoBox {
    pub closed spec fn key(&self) -> Seq<u8> {
        self.key@
    }

    pub fn new(key: &[u8; 32]) -> (b: CryptoBox)
        ensures
            b.key() == key@,
    {
        CryptoBox { key: *key }
    }

    /// Seals `plaintext` under the given nonce; what comes out opens again.
    pub fn encrypt_with_nonce(&self, nonce: &[u8; 24], plaintext: &[u8], associated_data: &[u8]) -> (r:
        Result<Vec<u8>, AppError>)
        ensures
            r is Ok <==> plaintext@.len() / 64 < u32::MAX,
            r matches Ok(c) ==> c@ == xchacha_seal(self.key(), nonce@, plaintext@, associated_data@),
            r matches Ok(c) ==> box_open(self.key(), nonce@, c@, associated_data@) == Some(plaintext@),
            r matches Err(e) ==> e is Crypto,
    {
        match xchacha_encrypt(&self.key, nonce, plaintext, associated_data) {
            Some(c) => Ok(c),
            None => Err(AppError::Crypto),
        }
    }

    /// Seals `plaintext` under a fresh random nonce; returns the nonce and
    /// the ciphertext, which opens again.
    pub fn encrypt(&self, plaintext: &[u8], associated_data: &[u8]) -> (r: Result<(Vec<u8>, Vec<u8>), AppError>)
        ensures
            r matches Ok((n, c)) ==> n@.len() == NONCE_BYTES && c@ == xchacha_seal(
                self.key(),
                n@,
                plaintext@,
                associated_data@,
            ) && box_open(self.key(), n@, c@, associated_data@) == Some(plaintext@),
            r matches Err(e) ==> e is Crypto,
            plaintext@.len() / 64 >= u32::MAX ==> r is Err,
    {
        let mut nonce = zeroes(NONCE_BYTES);
        if fill_random(&mut nonce).is_err() {
            return Err(AppError::Crypto);
        }
        let n: [u8; 24] = to_array(nonce.as_slice());
        let c = self.encrypt_with_nonce(&n, plaintext, associated_data)?;
        Ok((nonce, c))
    }

    /// Opens a ciphertext; fails unless the nonce has the right length and
    /// the tag authenticates ciphertext and associated data.
    pub fn decrypt(&self, nonce: &[u8], ciphertext: &[u8], associated_data: &[u8]) -> (r: Result<Vec<u8>, AppError>)
        ensures
            match box_open(self.key(), nonce@, ciphertext@, associated_data@) {
                Some(p) => r matches Ok(q) && q@ == p,
                None => r matches Err(AppError::Crypto),
            },
    {
        if nonce.len() != NONCE_BYTES {
            return Err(AppError::Crypto);
        }
        let n: [u8; 24] = to_array(nonce);
        match xchacha_decrypt(&self.key, &n, ciphertext, associated_data) {
            Some(p) => Ok(p),
            None => Err(AppError::Crypto),
        }
    }
}

/// A wrapped data key as stored.
#[derive(Debug, Clone)]
pub struct WrappedDataKeyRow {
    pub key_id: String,
    pub purpose: String,
    pub algorithm: String,
    pub wrap_algorithm: String,
    pub wrap_nonce: Vec<u8>,
    pub wrapped_key: Vec<u8>,
    pub status: String,
}

/// Why a stored key ring cannot be used.
pub enum KeyringFault {
    /// A key has other metadata than this version writes (its identifier).
    Metadata(Seq<char>),
    MultipleActive,
    /// A key has an unknown status (the status).
    Status(Seq<char>),
    /// A key does not unwrap to a 32-byte key.
    Unwrap,
    /// Two keys share an identifier (the identifier).
    Duplicate(Seq<char>),
    MissingActive,
    UnavailableReferences,
}

/// The error reported for a fault.
pub open spec fn fault_error(f: KeyringFault, e: AppError) -> bool {
    match f {
        KeyringFault::Metadata(id) => e matches AppError::Storage(m) && m@
            == "unsupported wrapped data key metadata for "@ + id,
        KeyringFault::MultipleActive => e matches AppError::Storage(m) && m@
            == "multiple active clipboard data keys"@,
        KeyringFault::Status(s) => e matches AppError::Storage(m) && m@
            == "invalid wrapped data key status "@ + s,
        KeyringFault::Unwrap => e is Crypto,
        KeyringFault::Duplicate(id) => e matches AppError::Storage(m) && m@
            == "duplicate wrapped data key "@ + id,
        KeyringFault::MissingActive => e matches AppError::Storage(m) && m@
            == "active clipboard data key is missing"@,
        KeyringFault::UnavailableReferences => e matches AppError::Storage(m) && m@
            == "clipboard rows reference an unavailable data key"@,
    }
}

/// The data key a stored row unwraps to under the key-encryption key.
pub open spec fn row_unwrapped(database_id: Seq<char>, kek: Seq<u8>, row: WrappedDataKeyRow) -> Option<Seq<u8>> {
    box_open(kek, row.wrap_nonce@, row.wrapped_key@, wrapped_key_aad_spec(database_id, row.key_id@))
}

/// Whether `id` names one of the entries.
pub open spec fn has_id(entries: Seq<(Seq<char>, Seq<u8>)>, id: Seq<char>) -> bool {
    exists|i: int| 0 <= i < entries.len() && #[trigger] entries[i].0 == id
}

/// One row read into the key ring built so far (its entries, and the
/// active key's identifier once seen).
pub open spec fn keyring_step(
    database_id: Seq<char>,
    kek: Seq<u8>,
    state: (Seq<(Seq<char>, Seq<u8>)>, Option<Seq<char>>),
    row: WrappedDataKeyRow,
) -> Result<(Seq<(Seq<char>, Seq<u8>)>, Option<Seq<char>>), KeyringFault> {
    if row.purpose@ != DATA_KEY_PURPOSE@ || row.algorithm@ != DATA_KEY_ALGORITHM@ || row.wrap_algorithm@
        != KEY_WRAP_ALGORITHM@ {
        Err(KeyringFault::Metadata(row.key_id@))
    } else if row.status@ == "active"@ && state.1 is Some {
        Err(KeyringFault::MultipleActive)
    } else if row.status@ != "active"@ && row.status@ != "retired"@ {
        Err(KeyringFault::Status(row.status@))
    } else {
        match row_unwrapped(database_id, kek, row) {
            None => Err(KeyringFault::Unwrap),
            Some(k) => if k.len() != DATA_KEY_BYTES {
                Err(KeyringFault::Unwrap)
            } else if has_id(state.0, row.key_id@) {
                Err(KeyringFault::Duplicate(row.key_id@))
            } else {
                Ok(
                    (
                        state.0.push((row.key_id@, k)),
                        if row.status@ == "active"@ {
                            Some(row.key_id@)
                        } else {
                            state.1
                        },
                    ),
                )
            },
        }
    }
}

/// The rows read in order.
pub open spec fn keyring_scan(database_id: Seq<char>, kek: Seq<u8>, rows: Seq<WrappedDataKeyRow>) -> Result<
    (Seq<(Seq<char>, Seq<u8>)>, Option<Seq<char>>),
    KeyringFault,
>
    decreases rows.len(),
{
    if rows.len() == 0 {
        Ok((Seq::empty(), None))
    } else {
        match keyring_scan(database_id, kek, rows.drop_last()) {
            Err(f) => Err(f),
            Ok(state) => keyring_step(database_id, kek, state, rows.last()),
        }
    }
}

/// Once a prefix of the rows is at fault, so are all rows, with the same fault.
pub proof fn lemma_scan_fault_persists(
    database_id: Seq<char>,
    kek: Seq<u8>,
    rows: Seq<WrappedDataKeyRow>,
    i: int,
)
    requires
        0 <= i <= rows.len(),
        keyring_scan(database_id, kek, rows.subrange(0, i)) is Err,
    ensures
        keyring_scan(database_id, kek, rows) == keyring_scan(database_id, kek, rows.subrange(0, i)),
    decreases rows.len() - i,
{
    if i < rows.len() {
        let next = rows.subrange(0, i + 1);
        assert(next.drop_last() =~= rows.subrange(0, i));
        lemma_scan_fault_persists(database_id, kek, rows, i + 1);
    } else {
        assert(rows.subrange(0, i) =~= rows);
    }
}

/// The key ring stored rows give: its entries and its active key, or the
/// first fault found.
pub open spec fn stored_keyring(
    database_id: Seq<char>,
    kek: Seq<u8>,
    rows: Seq<WrappedDataKeyRow>,
    invalid_references: u64,
) -> Result<(Seq<(Seq<char>, Seq<u8>)>, Seq<char>), KeyringFault> {
    match keyring_scan(database_id, kek, rows) {
        Err(f) => Err(f),
        Ok((entries, None)) => Err(KeyringFault::MissingActive),
        Ok((entries, Some(active))) => if invalid_references > 0 {
            Err(KeyringFault::UnavailableReferences)
        } else {
            Ok((entries, active))
        },
    }
}

/// The data keys, each under its identifier, and which one seals new data.
pub struct DataKeyring {
    active_key_id: String,
    ids: Vec<String>,
    boxes: Vec<CryptoBox>,
}

/// Identifiers are distinct and the active one is among them.
pub open spec fn entries_wf(entries: Seq<(Seq<char>, Seq<u8>)>, active: Seq<char>) -> bool {
    &&& forall|i: int, j: int| 0 <= i < j < entries.len() ==> entries[i].0 != entries[j].0
    &&& has_id(entries, active)
}

/// The key under `id` in `entries`.
pub open spec fn key_of(entries: Seq<(Seq<char>, Seq<u8>)>, id: Seq<char>) -> Seq<u8> {
    entries[choose|i: int| 0 <= i < entries.len() && entries[i].0 == id].1
}

impl DataKeyring {
    pub closed spec fn entries(&self) -> Seq<(Seq<char>, Seq<u8>)> {
        Seq::new(self.ids@.len(), |i: int| (self.ids@[i]@, self.boxes@[i].key()))
    }

    pub closed spec fn active_id(&self) -> Seq<char> {
        self.active_key_id@
    }

    pub closed spec fn wf(&self) -> bool {
        &&& self.ids@.len() == self.boxes@.len()
        &&& entries_wf(self.entries(), self.active_id())
    }

    /// The active key is one of the ring's keys.
    pub proof fn lemma_active_present(&self)
        requires
            self.wf(),
        ensures
            has_id(self.entries(), self.active_id()),
    {
    }

    /// A key ring of one data key, which is active.
    pub fn single(key_id: String, key: &[u8; 32]) -> (k: DataKeyring)
        ensures
            k.wf(),
            k.entries() == seq![(key_id@, key@)],
            k.active_id() == key_id@,
    {
        let mut ids: Vec<String> = Vec::new();
        ids.push(key_id.clone());
        let mut boxes: Vec<CryptoBox> = Vec::new();
        boxes.push(CryptoBox::new(key));
        let k = DataKeyring { active_key_id: key_id, ids, boxes };
        assert(k.entries() =~= seq![(key_id@, key@)]);
        assert(k.entries()[0].0 == k.active_id());
        k
    }

    fn position(&self, key_id: &str) -> (r: Option<usize>)
        requires
            self.wf(),
        ensures
            match r {
                Some(i) => i < self.ids@.len() && self.ids@[i as int]@ == key_id@,
                None => !has_id(self.entries(), key_id@),
            },
    {
        let wanted = String::from_str(key_id);
        let mut i: usize = 0;
        while i < self.ids.len()
            invariant
                i <= self.ids@.len(),
                self.wf(),
                wanted@ == key_id@,
                forall|j: int| 0 <= j < i ==> self.ids@[j]@ != key_id@,
            decreases self.ids@.len() - i,
        {
            if self.ids[i] == wanted {
                return Some(i);
            }
            i = i + 1;
        }
        proof {
            if has_id(self.entries(), key_id@) {
                let j = choose|j: int| 0 <= j < self.entries().len() && #[trigger] self.entries()[j].0 == key_id@;
                assert(self.ids@[j]@ == key_id@);
            }
        }
        None
    }

    /// The box of the data key that seals new data, and its identifier.
    pub fn active(&self) -> (r: (String, CryptoBox))
        requires
            self.wf(),
        ensures
            r.0@ == self.active_id(),
            r.1.key() == key_of(self.entries(), self.active_id()),
    {
        match self.position(self.active_key_id.as_str()) {
            Some(i) => {
                proof {
                    let e = self.entries();
                    let c = choose|j: int| 0 <= j < e.len() && e[j].0 == self.active_id();
                    if c != i {
                        assert(e[c].0 == e[i as int].0);
                    }
                }
                (self.active_key_id.clone(), self.boxes[i])
            },
            None => {
                proof {
                    assert(false);
                }
                (self.active_key_id.clone(), self.boxes[0])
            },
        }
    }

    /// The box of the data key named `key_id`.
    pub fn get(&self, key_id: &str) -> (r: Result<CryptoBox, AppError>)
        requires
            self.wf(),
        ensures
            r is Ok <==> has_id(self.entries(), key_id@),
            r matches Ok(b) ==> b.key() == key_of(self.entries(), key_id@),
            r matches Err(e) ==> e matches AppError::Storage(m) && m@ == "unknown data key "@ + key_id@,
    {
        match self.position(key_id) {
            Some(i) => {
                proof {
                    let e = self.entries();
                    assert(e[i as int].0 == key_id@);
                    let c = choose|j: int| 0 <= j < e.len() && e[j].0 == key_id@;
                    if c != i {
                        assert(e[c].0 == e[i as int].0);
                    }
                }
                Ok(self.boxes[i])
            },
            None => Err(AppError::Storage(concat2("unknown data key ", key_id))),
        }
    }
}

fn contains_id(ids: &Vec<String>, id: &String) -> (found: bool)
    ensures
        found == exists|j: int| 0 <= j < ids@.len() && ids@[j]@ == id@,
{
    let mut k: usize = 0;
    while k < ids.len()
        invariant
            k <= ids@.len(),
            forall|j: int| 0 <= j < k ==> ids@[j]@ != id@,
        decreases ids@.len() - k,
    {
        if ids[k] == *id {
            return true;
        }
        k = k + 1;
    }
    false
}

fn same_text(a: &String, b: &str) -> (equal: bool)
    ensures
        equal == (a@ == b@),
{
    let other = String::from_str(b);
    *a == other
}

/// Reads the stored key ring: every row must carry this version's metadata
/// and a known status, exactly one key must be active, every key must unwrap
/// under the key-encryption key to 32 bytes, identifiers must be distinct,
/// and no clipboard row may name a key that is not stored.
pub fn open_keyring(
    database_id: &str,
    key_encryption_key: &[u8; 32],
    rows: &Vec<WrappedDataKeyRow>,
    invalid_references: u64,
) -> (r: Result<DataKeyring, AppError>)
    ensures
        match stored_keyring(database_id@, key_encryption_key@, rows@, invalid_references) {
            Ok((entries, active)) => r matches Ok(k) && k.wf() && k.entries() == entries
                && k.active_id() == active,
            Err(f) => r matches Err(e) && fault_error(f, e),
        },
{
    let key_wrap = CryptoBox::new(key_encryption_key);
    let mut active_key_id: Option<String> = None;
    let mut ids: Vec<String> = Vec::new();
    let mut boxes: Vec<CryptoBox> = Vec::new();
    let mut i: usize = 0;
    let ghost db = database_id@;
    let ghost kek = key_encryption_key@;
    while i < rows.len()
        invariant
            i <= rows@.len(),
            db == database_id@,
            kek == key_encryption_key@,
            key_wrap.key() == kek,
            ids@.len() == boxes@.len(),
            keyring_scan(db, kek, rows@.subrange(0, i as int)) matches Ok(state) && state.0 == Seq::new(
                ids@.len(),
                |j: int| (ids@[j]@, boxes@[j].key()),
            ) && state.1 == match active_key_id {
                Some(a) => Some(a@),
                None => None,
            },
            forall|a: int, b: int| 0 <= a < b < ids@.len() ==> ids@[a]@ != ids@[b]@,
            active_key_id matches Some(a) ==> exists|j: int| 0 <= j < ids@.len() && ids@[j]@ == a@,
        decreases rows@.len() - i,
    {
        let row = &rows[i];
        let ghost prefix = rows@.subrange(0, i as int);
        let ghost state = keyring_scan(db, kek, prefix)->Ok_0;
        proof {
            assert(rows@.subrange(0, i + 1).drop_last() =~= prefix);
            assert(rows@.subrange(0, i + 1).last() == *row);
        }
        if !same_text(&row.purpose, DATA_KEY_PURPOSE) || !same_text(&row.algorithm, DATA_KEY_ALGORITHM)
            || !same_text(&row.wrap_algorithm, KEY_WRAP_ALGORITHM) {
            proof {
                lemma_scan_fault_persists(db, kek, rows@, i + 1);
            }
            return Err(AppError::Storage(concat2("unsupported wrapped data key metadata for ", row.key_id.as_str())));
        }
        let is_active = same_text(&row.status, "active");
        if is_active {
            if active_key_id.is_some() {
                proof {
                    lemma_scan_fault_persists(db, kek, rows@, i + 1);
                }
                return Err(AppError::Storage(String::from_str("multiple active clipboard data keys")));
            }
        } else if !same_text(&row.status, "retired") {
            proof {
                lemma_scan_fault_persists(db, kek, rows@, i + 1);
            }
            return Err(AppError::Storage(concat2("invalid wrapped data key status ", row.status.as_str())));
        }
        let associated_data = wrapped_key_associated_data(database_id, row.key_id.as_str());
        let plaintext = match key_wrap.decrypt(row.wrap_nonce.as_slice(), row.wrapped_key.as_slice(), associated_data.as_slice()) {
            Ok(p) => p,
            Err(e) => {
                proof {
                    lemma_scan_fault_persists(db, kek, rows@, i + 1);
                }
                return Err(e);
            },
        };
        if plaintext.len() != DATA_KEY_BYTES {
            proof {
                lemma_scan_fault_persists(db, kek, rows@, i + 1);
            }
            return Err(AppError::Crypto);
        }
        if contains_id(&ids, &row.key_id) {
            proof {
                let j = choose|j: int| 0 <= j < ids@.len() && ids@[j]@ == row.key_id@;
                assert(state.0[j].0 == row.key_id@);
                lemma_scan_fault_persists(db, kek, rows@, i + 1);
            }
            return Err(AppError::Storage(concat2("duplicate wrapped data key ", row.key_id.as_str())));
        }
        proof {
            if has_id(state.0, row.key_id@) {
                let j = choose|j: int| 0 <= j < state.0.len() && #[trigger] state.0[j].0 == row.key_id@;
                assert(ids@[j]@ == row.key_id@);
            }
        }
        let ghost old_ids = ids@;
        let data_key: [u8; 32] = to_array(plaintext.as_slice());
        ids.push(row.key_id.clone());
        boxes.push(CryptoBox::new(&data_key));
        if is_active {
            active_key_id = Some(row.key_id.clone());
        }
        proof {
            assert(ids@[ids@.len() - 1]@ == row.key_id@);
            match &active_key_id {
                Some(a) => {
                    if !is_active {
                        let j = choose|j: int| 0 <= j < old_ids.len() && old_ids[j]@ == a@;
                        assert(ids@[j] == old_ids[j]);
                    }
                },
                None => {},
            }
            assert forall|a: int, b: int| 0 <= a < b < ids@.len() implies ids@[a]@ != ids@[b]@ by {
                if b == ids@.len() - 1 {
                    assert(ids@[a] == old_ids[a]);
                }
            }
        }
        i = i + 1;
        proof {
            let next = keyring_scan(db, kek, rows@.subrange(0, i as int))->Ok_0;
            assert(next.0 =~= Seq::new(ids@.len(), |j: int| (ids@[j]@, boxes@[j].key())));
            assert(ids@[ids@.len() - 1]@ == row.key_id@);
        }
    }
    proof {
        assert(rows@.subrange(0, rows@.len() as int) =~= rows@);
    }
    let active = match active_key_id {
        Some(a) => a,
        None => return Err(AppError::Storage(String::from_str("active clipboard data key is missing"))),
    };
    if invalid_references > 0 {
        return Err(AppError::Storage(String::from_str("clipboard rows reference an unavailable data key")));
    }
    let keyring = DataKeyring { active_key_id: active, ids, boxes };
    proof {
        assert(keyring.entries() =~= Seq::new(ids@.len(), |j: int| (ids@[j]@, boxes@[j].key())));
        let j = choose|j: int| 0 <= j < ids@.len() && ids@[j]@ == keyring.active_id();
        assert(keyring.entries()[j].0 == keyring.active_id());
    }
    Ok(keyring)
}

} // verus!

verus! {

/// A data key wrapped for storage under the key-encryption key: the ring
/// holding just that key, and the row to store, which unwraps to it.
pub fn wrap_new_data_key(
    database_id: &str,
    key_encryption_key: &[u8; 32],
    data_key: &[u8; 32],
    key_id: String,
) -> (r: Result<(DataKeyring, WrappedDataKeyRow), AppError>)
    ensures
        r matches Ok((k, row)) ==> {
            &&& k.wf()
            &&& k.entries() == seq![(key_id@, data_key@)]
            &&& k.active_id() == key_id@
            &&& row.key_id@ == key_id@
            &&& row.purpose@ == DATA_KEY_PURPOSE@
            &&& row.algorithm@ == DATA_KEY_ALGORITHM@
            &&& row.wrap_algorithm@ == KEY_WRAP_ALGORITHM@
            &&& row.status@ == "active"@
            &&& row_unwrapped(database_id@, key_encryption_key@, row) == Some(data_key@)
        },
        r matches Err(e) ==> e is Crypto,
{
    let key_wrap = CryptoBox::new(key_encryption_key);
    let associated_data = wrapped_key_associated_data(database_id, key_id.as_str());
    let (wrap_nonce, wrapped_key) = key_wrap.encrypt(data_key.as_slice(), associated_data.as_slice())?;
    let row = WrappedDataKeyRow {
        key_id: key_id.clone(),
        purpose: String::from_str(DATA_KEY_PURPOSE),
        algorithm: String::from_str(DATA_KEY_ALGORITHM),
        wrap_algorithm: String::from_str(KEY_WRAP_ALGORITHM),
        wrap_nonce,
        wrapped_key,
        status: String::from_str("active"),
    };
    Ok((DataKeyring::single(key_id, data_key), row))
}

/// A data key wrapped and stored comes back, unchanged and active, when the
/// store is opened again with the same key-encryption key.
pub proof fn lemma_wrapped_key_reopens(
    database_id: Seq<char>,
    kek: Seq<u8>,
    row: WrappedDataKeyRow,
    data_key: Seq<u8>,
)
    requires
        row.purpose@ == DATA_KEY_PURPOSE@,
        row.algorithm@ == DATA_KEY_ALGORITHM@,
        row.wrap_algorithm@ == KEY_WRAP_ALGORITHM@,
        row.status@ == "active"@,
        row_unwrapped(database_id, kek, row) == Some(data_key),
        data_key.len() == DATA_KEY_BYTES,
    ensures
        stored_keyring(database_id, kek, seq![row], 0) == Ok::<_, KeyringFault>(
            (seq![(row.key_id@, data_key)], row.key_id@),
        ),
{
    let rows = seq![row];
    reveal_with_fuel(keyring_scan, 2);
    assert(rows.drop_last() =~= Seq::<WrappedDataKeyRow>::empty());
    assert(rows.last() == row);
    assert(keyring_scan(database_id, kek, rows.drop_last()) == Ok::<_, KeyringFault>(
        (Seq::<(Seq<char>, Seq<u8>)>::empty(), Option::<Seq<char>>::None),
    ));
    assert(!has_id(Seq::<(Seq<char>, Seq<u8>)>::empty(), row.key_id@));
    assert(Seq::<(Seq<char>, Seq<u8>)>::empty().push((row.key_id@, data_key)) =~= seq![
        (row.key_id@, data_key),
    ]);
}

/// A clipboard row written before data keys were wrapped: bound to its
/// event identifier only, and to no stored key.
#[derive(Debug, Clone)]
pub struct LegacyClipboardRow {
    pub event_id: String,
    pub nonce: Vec<u8>,
    pub ciphertext: Vec<u8>,
}

/// A legacy row reads back under `key`: its identifier parses and its
/// content opens with the identifier's bytes as associated data.
pub open spec fn legacy_row_opens(key: Seq<u8>, row: LegacyClipboardRow) -> bool {
    match uuid_parsed(row.event_id@) {
        Some(id) => box_open(key, row.nonce@, row.ciphertext@, id) is Some,
        None => false,
    }
}

/// Why legacy rows are refused under `key`: the first row that does not
/// open decides the error, a storage error when its identifier does not
/// parse, a cryptographic one when its content does not open.
pub open spec fn legacy_rows_refused(key: Seq<u8>, rows: Seq<LegacyClipboardRow>, e: AppError) -> bool {
    exists|j: int|
        0 <= j < rows.len() && !legacy_row_opens(key, #[trigger] rows[j]) && (forall|i: int|
            0 <= i < j ==> legacy_row_opens(key, #[trigger] rows[i])) && (uuid_parsed(rows[j].event_id@)
            is None ==> e is Storage) && (uuid_parsed(rows[j].event_id@) is Some ==> e is Crypto)
}

/// Checks that every legacy row opens under `key`; the first row that does
/// not decides the error: a storage error when its identifier does not
/// parse, a cryptographic one when its content does not open.
pub fn validate_legacy_clipboard_rows(rows: &Vec<LegacyClipboardRow>, key: &[u8; 32]) -> (r: Result<(), AppError>)
    ensures
        r is Ok <==> forall|i: int| 0 <= i < rows@.len() ==> legacy_row_opens(key@, #[trigger] rows@[i]),
        r matches Err(e) ==> legacy_rows_refused(key@, rows@, e),
{
    let crypto = CryptoBox::new(key);
    let mut i: usize = 0;
    while i < rows.len()
        invariant
            i <= rows@.len(),
            crypto.key() == key@,
            forall|k: int| 0 <= k < i ==> legacy_row_opens(key@, #[trigger] rows@[k]),
        decreases rows@.len() - i,
    {
        let row = &rows[i];
        let event_id = match parse_uuid(row.event_id.as_str()) {
            Ok(id) => id,
            Err(message) => {
                assert(!legacy_row_opens(key@, rows@[i as int]));
                return Err(AppError::Storage(message));
            },
        };
        match crypto.decrypt(row.nonce.as_slice(), row.ciphertext.as_slice(), event_id.bytes.as_slice()) {
            Ok(_) => {},
            Err(e) => {
                assert(!legacy_row_opens(key@, rows@[i as int]));
                return Err(e);
            },
        }
        i = i + 1;
    }
    Ok(())
}

/// Starts the key ring of a store that has none: the legacy data key when
/// one is given, else a fresh one, wrapped under the key-encryption key with
/// a fresh identifier. Legacy rows, if any, must open under that key, and
/// there must be a legacy key for them.
pub fn create_keyring(
    database_id: &str,
    key_encryption_key: &[u8; 32],
    legacy_rows: &Vec<LegacyClipboardRow>,
    legacy_data_key: Option<[u8; 32]>,
) -> (r: Result<(DataKeyring, WrappedDataKeyRow), AppError>)
    ensures
        legacy_rows@.len() > 0 && legacy_data_key is None ==> (r matches Err(AppError::Storage(m))
            && m@ == "legacy clipboard data exists but its data key is unavailable"@),
        legacy_data_key matches Some(k) ==> (legacy_rows@.len() > 0 && !(forall|i: int|
            0 <= i < legacy_rows@.len() ==> legacy_row_opens(k@, #[trigger] legacy_rows@[i]))
            ==> (r matches Err(e) && legacy_rows_refused(k@, legacy_rows@, e))),
        legacy_rows@.len() == 0 || (legacy_data_key matches Some(k) && forall|i: int|
            0 <= i < legacy_rows@.len() ==> legacy_row_opens(k@, #[trigger] legacy_rows@[i]))
            ==> (r matches Err(e) ==> e is Crypto),
        r matches Ok((k, row)) ==> {
            &&& k.wf()
            &&& k.entries().len() == 1
            &&& k.active_id() == row.key_id@
            &&& k.entries()[0].0 == row.key_id@
            &&& (legacy_data_key matches Some(l) ==> k.entries()[0].1 == l@)
            &&& row.purpose@ == DATA_KEY_PURPOSE@
            &&& row.algorithm@ == DATA_KEY_ALGORITHM@
            &&& row.wrap_algorithm@ == KEY_WRAP_ALGORITHM@
            &&& row.status@ == "active"@
            &&& row_unwrapped(database_id@, key_encryption_key@, row) == Some(k.entries()[0].1)
        },
{
    if legacy_rows.len() > 0 && legacy_data_key.is_none() {
        return Err(AppError::Storage(String::from_str("legacy clipboard data exists but its data key is unavailable")));
    }
    let data_key = match legacy_data_key {
        Some(key) => key,
        None => generate_data_key()?,
    };
    if legacy_rows.len() > 0 {
        validate_legacy_clipboard_rows(legacy_rows, &data_key)?;
    }
    let key_id = random_uuid().to_hyphenated();
    wrap_new_data_key(database_id, key_encryption_key, &data_key, key_id)
}

} // verus!
