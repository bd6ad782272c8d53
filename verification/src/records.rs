//! Clipboard history rows and local secrets as the store keeps them: sealed
//! under the active data key, bound to their metadata, and read back.

use vstd::prelude::*;
use vstd::utf8::{decode_utf8, encode_utf8, valid_utf8};
use crate::aad::{
    clipboard_aad_spec, clipboard_associated_data_v2, local_secret_aad_spec,
    local_secret_associated_data, CLIPBOARD_CRYPTO_VERSION, LEGACY_CLIPBOARD_CRYPTO_VERSION,
    LOCAL_SECRET_CRYPTO_VERSION,
};
use crate::error::AppError;
use crate::hlc::{merge_timestamp, spec_merge, spec_tick, tick_timestamp, HlcTimestamp};
use crate::ids::{
    hyphenated, is_hyphenated_form, lemma_hyphenated_injective, parse_uuid, random_uuid, uuid_parsed, Uuid,
};
use crate::keyring::{box_open, has_id, key_of, DataKeyring};
use crate::model::{ClipboardDirection, ClipboardItemView};
use crate::primitives::{
    json_string, parse_json_string, plain_json_literal, timestamp_is_representable, MAX_TIMESTAMP_MS,
    MIN_TIMESTAMP_MS,
};
use crate::text::{concat2, i64_to_decimal, signed_decimal, utf8_text};

verus! {

/// A clipboard history row as stored: metadata in the clear, content sealed.
#[derive(Debug, Clone)]
pub struct EncryptedClipboardRow {
    pub event_id: String,
    pub source_device_id: String,
    pub source_device_name: String,
    pub direction: String,
    pub created_at_ms: i64,
    pub hlc_physical_ms: i64,
    pub hlc_logical: u32,
    pub content_hash: String,
    pub key_id: Option<String>,
    pub crypto_version: i64,
    pub nonce: Vec<u8>,
    pub ciphertext: Vec<u8>,
    pub pinned: bool,
}

/// The JSON text a direction is stored as.
pub open spec fn direction_json(d: ClipboardDirection) -> Seq<char> {
    match d {
        ClipboardDirection::Local => "\"local\""@,
        ClipboardDirection::Received => "\"received\""@,
    }
}

/// The direction whose stored JSON text is exactly `text`.
pub open spec fn direction_literal_of(text: Seq<char>) -> Option<ClipboardDirection> {
    if text == "\"local\""@ {
        Some(ClipboardDirection::Local)
    } else if text == "\"received\""@ {
        Some(ClipboardDirection::Received)
    } else {
        None
    }
}

/// The direction a stored JSON text names, read as JSON.
pub open spec fn direction_named(text: Seq<char>) -> Option<ClipboardDirection> {
    match json_string(text) {
        Some(s) => if s == "local"@ {
            Some(ClipboardDirection::Local)
        } else if s == "received"@ {
            Some(ClipboardDirection::Received)
        } else {
            None
        },
        None => None,
    }
}

/// The JSON text of a direction.
pub fn direction_to_json(d: ClipboardDirection) -> (text: String)
    ensures
        text@ == direction_json(d),
{
    match d {
        ClipboardDirection::Local => String::from_str("\"local\""),
        ClipboardDirection::Received => String::from_str("\"received\""),
    }
}

/// Reads a stored direction as JSON: a JSON string `local` or `received`.
pub fn direction_from_json(text: &str) -> (r: Result<ClipboardDirection, AppError>)
    ensures
        match direction_named(text@) {
            Some(d) => r == Ok::<ClipboardDirection, AppError>(d),
            None => r matches Err(e) && e is Storage,
        },
        direction_literal_of(text@) matches Some(d) ==> r == Ok::<ClipboardDirection, AppError>(d),
{
    proof {
        reveal_strlit("\"local\"");
        reveal_strlit("\"received\"");
        reveal_strlit("local");
        reveal_strlit("received");
        if text@ == "\"local\""@ || text@ == "\"received\""@ {
            assert(plain_json_literal(text@));
        }
        if text@ == "\"local\""@ {
            assert(text@.subrange(1, text@.len() - 1) =~= "local"@);
        }
        if text@ == "\"received\""@ {
            assert(text@.subrange(1, text@.len() - 1) =~= "received"@);
        }
    }
    match parse_json_string(text) {
        Some(s) => {
            let local = String::from_str("local");
            let received = String::from_str("received");
            if s == local {
                Ok(ClipboardDirection::Local)
            } else if s == received {
                Ok(ClipboardDirection::Received)
            } else {
                Err(AppError::Storage(concat2("unknown clipboard direction ", text)))
            }
        },
        None => Err(AppError::Storage(concat2("invalid clipboard direction ", text))),
    }
}

/// The associated data a row's content is sealed with under data key
/// `key_id`: the event identifier's bytes in the legacy format, the whole
/// metadata in the current one.
pub open spec fn row_associated_data(row: EncryptedClipboardRow, event_id: Seq<u8>, key_id: Seq<char>) -> Seq<u8> {
    if row.crypto_version == LEGACY_CLIPBOARD_CRYPTO_VERSION {
        event_id
    } else {
        clipboard_aad_spec(
            row.event_id@,
            row.source_device_id@,
            row.source_device_name@,
            row.direction@,
            row.created_at_ms,
            row.hlc_physical_ms,
            row.hlc_logical,
            row.content_hash@,
            key_id,
        )
    }
}

/// A format this version reads.
pub open spec fn known_clipboard_version(v: i64) -> bool {
    v == LEGACY_CLIPBOARD_CRYPTO_VERSION || v == CLIPBOARD_CRYPTO_VERSION
}

/// The content bytes a row opens to under the key ring.
pub open spec fn row_plaintext(entries: Seq<(Seq<char>, Seq<u8>)>, row: EncryptedClipboardRow) -> Option<Seq<u8>> {
    match uuid_parsed(row.event_id@) {
        Some(id) => match row.key_id {
            Some(k) => if known_clipboard_version(row.crypto_version) && has_id(entries, k@) {
                box_open(key_of(entries, k@), row.nonce@, row.ciphertext@, row_associated_data(row, id, k@))
            } else {
                None
            },
            None => None,
        },
        None => None,
    }
}

pub open spec fn timestamp_in_range(ms: i64) -> bool {
    MIN_TIMESTAMP_MS <= ms <= MAX_TIMESTAMP_MS
}

/// A row that reads back: its content opens and is UTF-8, and its
/// identifiers, direction and time are valid.
pub open spec fn row_readable(entries: Seq<(Seq<char>, Seq<u8>)>, row: EncryptedClipboardRow) -> bool {
    &&& row_plaintext(entries, row) matches Some(p) && valid_utf8(p)
    &&& uuid_parsed(row.source_device_id@) is Some
    &&& direction_named(row.direction@) is Some
    &&& timestamp_in_range(row.created_at_ms)
}

/// The item a readable row reads as.
pub open spec fn row_reads_as(
    entries: Seq<(Seq<char>, Seq<u8>)>,
    row: EncryptedClipboardRow,
    item: ClipboardItemView,
) -> bool {
    &&& uuid_parsed(row.event_id@) == Some(item.id.bytes@)
    &&& row_plaintext(entries, row) matches Some(p) && decode_utf8(p) == item.content@
    &&& item.content_hash@ == row.content_hash@
    &&& uuid_parsed(row.source_device_id@) == Some(item.source_device_id.bytes@)
    &&& item.source_device_name@ == row.source_device_name@
    &&& direction_named(row.direction@) == Some(item.direction)
    &&& item.created_at_ms == row.created_at_ms
    &&& item.hlc == HlcTimestamp { physical_ms: row.hlc_physical_ms, logical: row.hlc_logical }
    &&& item.pinned == row.pinned
}

/// The error an unreadable row gives: that of the first check it fails.
pub open spec fn row_error(entries: Seq<(Seq<char>, Seq<u8>)>, row: EncryptedClipboardRow, e: AppError) -> bool {
    if uuid_parsed(row.event_id@) is None {
        e is Storage
    } else if row.key_id is None {
        e matches AppError::Storage(m) && m@ == "clipboard row has no data key"@
    } else if !known_clipboard_version(row.crypto_version) {
        e matches AppError::Storage(m) && m@ == "unsupported clipboard encryption version "@
            + signed_decimal(row.crypto_version as int)
    } else if !has_id(entries, row.key_id->0@) {
        e matches AppError::Storage(m) && m@ == "unknown data key "@ + row.key_id->0@
    } else if row_plaintext(entries, row) is None {
        e is Crypto
    } else if !valid_utf8(row_plaintext(entries, row)->0) {
        e is Storage
    } else if uuid_parsed(row.source_device_id@) is None {
        e is Storage
    } else if direction_named(row.direction@) is None {
        e is Storage
    } else {
        e matches AppError::Storage(m) && m@ == "invalid timestamp "@ + signed_decimal(row.created_at_ms as int)
    }
}

/// The row's content opens, in the current format under data key `key_id`,
/// to UTF-8 text.
pub open spec fn opens_to_text(entries: Seq<(Seq<char>, Seq<u8>)>, row: EncryptedClipboardRow, key_id: Seq<char>) -> bool {
    box_open(
        key_of(entries, key_id),
        row.nonce@,
        row.ciphertext@,
        clipboard_aad_spec(
            row.event_id@,
            row.source_device_id@,
            row.source_device_name@,
            row.direction@,
            row.created_at_ms,
            row.hlc_physical_ms,
            row.hlc_logical,
            row.content_hash@,
            key_id,
        ),
    ) matches Some(p) && valid_utf8(p)
}

/// A row as this version seals one: identifiers in hyphenated form, the
/// direction as its JSON text, the current format, a known data key, and
/// content that opens to UTF-8.
pub open spec fn row_well_sealed(entries: Seq<(Seq<char>, Seq<u8>)>, row: EncryptedClipboardRow) -> bool {
    &&& is_hyphenated_form(row.event_id@)
    &&& is_hyphenated_form(row.source_device_id@)
    &&& direction_literal_of(row.direction@) is Some
    &&& row.crypto_version == CLIPBOARD_CRYPTO_VERSION
    &&& row.key_id matches Some(k) && has_id(entries, k@) && opens_to_text(entries, row, k@)
    &&& timestamp_in_range(row.created_at_ms)
}

/// What reading a row gives.
pub open spec fn clipboard_read(
    entries: Seq<(Seq<char>, Seq<u8>)>,
    row: EncryptedClipboardRow,
    r: Result<ClipboardItemView, AppError>,
) -> bool {
    &&& r is Ok <==> row_readable(entries, row)
    &&& r matches Ok(item) ==> row_reads_as(entries, row, item)
    &&& r matches Err(e) ==> row_error(entries, row, e)
    &&& row_well_sealed(entries, row) ==> r is Ok
    &&& r matches Ok(item) ==> (is_hyphenated_form(row.event_id@) ==> hyphenated(item.id.bytes@)
        == row.event_id@)
    &&& r matches Ok(item) ==> (is_hyphenated_form(row.source_device_id@) ==> hyphenated(
        item.source_device_id.bytes@,
    ) == row.source_device_id@)
    &&& r matches Ok(item) ==> (direction_literal_of(row.direction@) matches Some(d) ==> item.direction
        == d)
}

/// Reads a stored clipboard row back into an item: parses its identifier,
/// opens its content under the data key it names with the associated data
/// of its format, and parses the rest of its metadata.
pub fn decrypt_clipboard_row(keyring: &DataKeyring, row: EncryptedClipboardRow) -> (r: Result<
    ClipboardItemView,
    AppError,
>)
    requires
        keyring.wf(),
    ensures
        clipboard_read(keyring.entries(), row, r),
{
    let ghost entries = keyring.entries();
    let ghost given = row;
    let event_id = match parse_uuid(row.event_id.as_str()) {
        Ok(id) => id,
        Err(message) => return Err(AppError::Storage(message)),
    };
    let key_id = match &row.key_id {
        Some(k) => k,
        None => return Err(AppError::Storage(String::from_str("clipboard row has no data key"))),
    };
    let associated_data = if row.crypto_version == LEGACY_CLIPBOARD_CRYPTO_VERSION {
        let mut bytes: Vec<u8> = Vec::new();
        let mut i: usize = 0;
        while i < 16
            invariant
                i <= 16,
                bytes@ == event_id.bytes@.subrange(0, i as int),
            decreases 16 - i,
        {
            bytes.push(event_id.bytes[i]);
            i = i + 1;
            assert(bytes@ =~= event_id.bytes@.subrange(0, i as int));
        }
        assert(event_id.bytes@.subrange(0, 16) =~= event_id.bytes@);
        bytes
    } else if row.crypto_version == CLIPBOARD_CRYPTO_VERSION {
        clipboard_associated_data_v2(
            row.event_id.as_str(),
            row.source_device_id.as_str(),
            row.source_device_name.as_str(),
            row.direction.as_str(),
            row.created_at_ms,
            row.hlc_physical_ms,
            row.hlc_logical,
            row.content_hash.as_str(),
            key_id.as_str(),
        )
    } else {
        return Err(
            AppError::Storage(
                concat2("unsupported clipboard encryption version ", i64_to_decimal(row.crypto_version).as_str()),
            ),
        );
    };
    let crypto = keyring.get(key_id.as_str())?;
    let plaintext = crypto.decrypt(row.nonce.as_slice(), row.ciphertext.as_slice(), associated_data.as_slice())?;
    let content = match utf8_text(plaintext) {
        Ok(text) => text,
        Err(message) => return Err(AppError::Storage(message)),
    };
    let source_device_id = match parse_uuid(row.source_device_id.as_str()) {
        Ok(id) => id,
        Err(message) => return Err(AppError::Storage(message)),
    };
    let direction = direction_from_json(row.direction.as_str())?;
    if !timestamp_is_representable(row.created_at_ms) {
        return Err(AppError::Storage(concat2("invalid timestamp ", i64_to_decimal(row.created_at_ms).as_str())));
    }
    Ok(ClipboardItemView {
        id: event_id,
        content,
        content_hash: row.content_hash,
        source_device_id,
        source_device_name: row.source_device_name,
        direction,
        created_at_ms: row.created_at_ms,
        hlc: HlcTimestamp { physical_ms: row.hlc_physical_ms, logical: row.hlc_logical },
        pinned: row.pinned,
    })
}

/// `row` is `item` sealed under the data key `active` of the ring.
pub open spec fn sealed_from(
    entries: Seq<(Seq<char>, Seq<u8>)>,
    active: Seq<char>,
    item: ClipboardItemView,
    row: EncryptedClipboardRow,
) -> bool {
    &&& row.event_id@ == hyphenated(item.id.bytes@)
    &&& row.source_device_id@ == hyphenated(item.source_device_id.bytes@)
    &&& row.source_device_name@ == item.source_device_name@
    &&& row.direction@ == direction_json(item.direction)
    &&& row.created_at_ms == item.created_at_ms
    &&& row.hlc_physical_ms == item.hlc.physical_ms
    &&& row.hlc_logical == item.hlc.logical
    &&& row.content_hash@ == item.content_hash@
    &&& row.key_id matches Some(k) && k@ == active
    &&& row.crypto_version == CLIPBOARD_CRYPTO_VERSION
    &&& row.pinned == item.pinned
    &&& box_open(
        key_of(entries, active),
        row.nonce@,
        row.ciphertext@,
        clipboard_aad_spec(
            row.event_id@,
            row.source_device_id@,
            row.source_device_name@,
            row.direction@,
            row.created_at_ms,
            row.hlc_physical_ms,
            row.hlc_logical,
            row.content_hash@,
            active,
        ),
    ) == Some(encode_utf8(item.content@))
}

/// Seals a clipboard item under the ring's active data key, its content
/// bound to all of its metadata and to that key.
pub fn seal_clipboard_item(keyring: &DataKeyring, item: &ClipboardItemView) -> (r: Result<
    EncryptedClipboardRow,
    AppError,
>)
    requires
        keyring.wf(),
    ensures
        r matches Ok(row) ==> sealed_from(keyring.entries(), keyring.active_id(), *item, row),
        r matches Err(e) ==> e is Crypto,
        encode_utf8(item.content@).len() / 64 >= u32::MAX ==> r is Err,
{
    let event_id = item.id.to_hyphenated();
    let source_device_id = item.source_device_id.to_hyphenated();
    let direction = direction_to_json(item.direction);
    let (key_id, crypto) = keyring.active();
    let associated_data = clipboard_associated_data_v2(
        event_id.as_str(),
        source_device_id.as_str(),
        item.source_device_name.as_str(),
        direction.as_str(),
        item.created_at_ms,
        item.hlc.physical_ms,
        item.hlc.logical,
        item.content_hash.as_str(),
        key_id.as_str(),
    );
    let (nonce, ciphertext) = crypto.encrypt(item.content.as_str().as_bytes(), associated_data.as_slice())?;
    Ok(EncryptedClipboardRow {
        event_id,
        source_device_id,
        source_device_name: item.source_device_name.clone(),
        direction,
        created_at_ms: item.created_at_ms,
        hlc_physical_ms: item.hlc.physical_ms,
        hlc_logical: item.hlc.logical,
        content_hash: item.content_hash.clone(),
        key_id: Some(key_id),
        crypto_version: CLIPBOARD_CRYPTO_VERSION,
        nonce,
        ciphertext,
        pinned: item.pinned,
    })
}

/// Two items that hold the same values.
pub open spec fn same_item(a: ClipboardItemView, b: ClipboardItemView) -> bool {
    &&& a.id.bytes@ == b.id.bytes@
    &&& a.content@ == b.content@
    &&& a.content_hash@ == b.content_hash@
    &&& a.source_device_id.bytes@ == b.source_device_id.bytes@
    &&& a.source_device_name@ == b.source_device_name@
    &&& a.direction == b.direction
    &&& a.created_at_ms == b.created_at_ms
    &&& a.hlc == b.hlc
    &&& a.pinned == b.pinned
}

/// A clipboard item sealed into the store reads back as the same item, as
/// long as its time is one the store can represent.
pub proof fn lemma_sealed_item_reads_back(
    entries: Seq<(Seq<char>, Seq<u8>)>,
    active: Seq<char>,
    item: ClipboardItemView,
    row: EncryptedClipboardRow,
    r: Result<ClipboardItemView, AppError>,
)
    requires
        has_id(entries, active),
        sealed_from(entries, active, item, row),
        clipboard_read(entries, row, r),
        timestamp_in_range(item.created_at_ms),
    ensures
        r matches Ok(out) && same_item(out, item),
{
    reveal_strlit("\"local\"");
    reveal_strlit("\"received\"");
    assert(is_hyphenated_form(row.event_id@)) by {
        assert(item.id.bytes@.len() == 16);
    }
    assert(is_hyphenated_form(row.source_device_id@)) by {
        assert(item.source_device_id.bytes@.len() == 16);
    }
    assert(direction_literal_of(row.direction@) == Some(item.direction));
    vstd::utf8::encode_utf8_valid_utf8(item.content@);
    vstd::utf8::encode_utf8_decode_utf8(item.content@);
    let id = uuid_parsed(row.event_id@);
    assert(row_well_sealed(entries, row)) by {
        let k = row.key_id->0;
        assert(k@ == active);
    }
    let out = r->Ok_0;
    lemma_hyphenated_injective(out.id.bytes@, item.id.bytes@);
    lemma_hyphenated_injective(out.source_device_id.bytes@, item.source_device_id.bytes@);
}

/// A local secret as stored.
#[derive(Debug, Clone)]
pub struct LocalSecretRow {
    pub key_id: String,
    pub crypto_version: i64,
    pub nonce: Vec<u8>,
    pub ciphertext: Vec<u8>,
}

/// A local secret identifier is 1 to 128 bytes of UTF-8.
pub open spec fn valid_secret_id(secret_id: Seq<char>) -> bool {
    0 < encode_utf8(secret_id).len() <= 128
}

/// What a stored local secret opens to under the key ring.
pub open spec fn secret_plaintext(
    entries: Seq<(Seq<char>, Seq<u8>)>,
    secret_id: Seq<char>,
    row: LocalSecretRow,
) -> Option<Seq<u8>> {
    if row.crypto_version == LOCAL_SECRET_CRYPTO_VERSION && has_id(entries, row.key_id@) {
        box_open(
            key_of(entries, row.key_id@),
            row.nonce@,
            row.ciphertext@,
            local_secret_aad_spec(secret_id, row.key_id@),
        )
    } else {
        None
    }
}

/// Seals a local secret under the ring's active data key, bound to its
/// identifier and to that key. What it stores opens again to the secret.
pub fn seal_local_secret(keyring: &DataKeyring, secret_id: &str, plaintext: &[u8]) -> (r: Result<
    LocalSecretRow,
    AppError,
>)
    requires
        keyring.wf(),
    ensures
        !valid_secret_id(secret_id@) ==> (r matches Err(AppError::InvalidInput(m)) && m@
            == "local secret identifier is invalid"@),
        valid_secret_id(secret_id@) ==> (r matches Err(e) ==> e is Crypto),
        r matches Ok(row) ==> row.key_id@ == keyring.active_id() && row.crypto_version
            == LOCAL_SECRET_CRYPTO_VERSION,
        r matches Ok(row) ==> secret_plaintext(keyring.entries(), secret_id@, row) == Some(plaintext@),
{
    let id_len = secret_id.as_bytes().len();
    if id_len == 0 || id_len > 128 {
        return Err(AppError::InvalidInput(String::from_str("local secret identifier is invalid")));
    }
    let (key_id, crypto) = keyring.active();
    let associated_data = local_secret_associated_data(secret_id, key_id.as_str());
    let (nonce, ciphertext) = crypto.encrypt(plaintext, associated_data.as_slice())?;
    proof {
        keyring.lemma_active_present();
    }
    Ok(LocalSecretRow { key_id, crypto_version: LOCAL_SECRET_CRYPTO_VERSION, nonce, ciphertext })
}

/// What opening a stored local secret gives.
pub open spec fn secret_read(
    entries: Seq<(Seq<char>, Seq<u8>)>,
    secret_id: Seq<char>,
    row: LocalSecretRow,
    r: Result<Vec<u8>, AppError>,
) -> bool {
    &&& r is Ok <==> secret_plaintext(entries, secret_id, row) is Some
    &&& r matches Ok(p) ==> secret_plaintext(entries, secret_id, row) == Some(p@)
}

/// A local secret sealed under an identifier opens, under the same
/// identifier, to the same bytes.
pub proof fn lemma_local_secret_reads_back(
    entries: Seq<(Seq<char>, Seq<u8>)>,
    secret_id: Seq<char>,
    plaintext: Seq<u8>,
    row: LocalSecretRow,
    r: Result<Vec<u8>, AppError>,
)
    requires
        secret_plaintext(entries, secret_id, row) == Some(plaintext),
        secret_read(entries, secret_id, row, r),
    ensures
        r matches Ok(p) && p@ == plaintext,
{
}

/// Opens a stored local secret: the row must have this version's format and
/// name a known data key, and its content must authenticate.
pub fn open_local_secret(keyring: &DataKeyring, secret_id: &str, row: &LocalSecretRow) -> (r: Result<
    Vec<u8>,
    AppError,
>)
    requires
        keyring.wf(),
    ensures
        secret_read(keyring.entries(), secret_id@, *row, r),
        row.crypto_version != LOCAL_SECRET_CRYPTO_VERSION ==> (r matches Err(AppError::Storage(m)) && m@
            == "unsupported local secret encryption version "@ + signed_decimal(row.crypto_version as int)),
        row.crypto_version == LOCAL_SECRET_CRYPTO_VERSION && !has_id(keyring.entries(), row.key_id@)
            ==> (r matches Err(AppError::Storage(m)) && m@ == "unknown data key "@ + row.key_id@),
        row.crypto_version == LOCAL_SECRET_CRYPTO_VERSION && has_id(keyring.entries(), row.key_id@)
            ==> (r matches Err(e) ==> e is Crypto),
{
    if row.crypto_version != LOCAL_SECRET_CRYPTO_VERSION {
        return Err(
            AppError::Storage(
                concat2(
                    "unsupported local secret encryption version ",
                    i64_to_decimal(row.crypto_version).as_str(),
                ),
            ),
        );
    }
    let associated_data = local_secret_associated_data(secret_id, row.key_id.as_str());
    let crypto = keyring.get(row.key_id.as_str())?;
    crypto.decrypt(row.nonce.as_slice(), row.ciphertext.as_slice(), associated_data.as_slice())
}

/// This device's identity as stored: its identifiers, its name, the number
/// of clipboard events it has issued and its clock.
#[derive(Debug, Clone)]
pub struct IdentityRecord {
    pub device_id: Uuid,
    pub space_id: Uuid,
    pub display_name: String,
    pub origin_sequence: u64,
    pub hlc: HlcTimestamp,
}

impl IdentityRecord {
    /// A new identity: fresh random identifiers, nothing issued yet.
    pub fn new(default_name: &str) -> (identity: IdentityRecord)
        ensures
            identity.display_name@ == default_name@,
            identity.origin_sequence == 0,
            identity.hlc == (HlcTimestamp { physical_ms: 0, logical: 0 }),
    {
        IdentityRecord {
            device_id: random_uuid(),
            space_id: random_uuid(),
            display_name: String::from_str(default_name),
            origin_sequence: 0,
            hlc: HlcTimestamp { physical_ms: 0, logical: 0 },
        }
    }

    /// Issues the sequence number and timestamp of the next local clipboard
    /// event observed at `now_ms`.
    pub fn next_event_clock(&mut self, now_ms: i64) -> (r: (u64, HlcTimestamp))
        ensures
            r.0 == (if old(self).origin_sequence == u64::MAX {
                u64::MAX
            } else {
                (old(self).origin_sequence + 1) as u64
            }),
            r.1 == spec_tick(old(self).hlc, now_ms),
            final(self).origin_sequence == r.0,
            final(self).hlc == r.1,
            final(self).device_id == old(self).device_id,
            final(self).space_id == old(self).space_id,
            final(self).display_name == old(self).display_name,
    {
        self.origin_sequence = self.origin_sequence.saturating_add(1);
        self.hlc = tick_timestamp(self.hlc, now_ms);
        (self.origin_sequence, self.hlc)
    }

    /// Moves the clock past a timestamp received from another device.
    pub fn merge_remote_clock(&mut self, remote: HlcTimestamp, now_ms: i64) -> (merged: HlcTimestamp)
        ensures
            merged == spec_merge(old(self).hlc, remote, now_ms),
            final(self).hlc == merged,
            final(self).origin_sequence == old(self).origin_sequence,
            final(self).device_id == old(self).device_id,
            final(self).space_id == old(self).space_id,
            final(self).display_name == old(self).display_name,
    {
        self.hlc = merge_timestamp(self.hlc, remote, now_ms);
        self.hlc
    }
}

/// An identity read from its stored columns: both identifiers must parse; a
/// negative stored sequence reads as zero.
pub fn parse_identity(
    device_id: &str,
    space_id: &str,
    display_name: String,
    origin_sequence: i64,
    hlc_physical_ms: i64,
    hlc_logical: u32,
) -> (r: Result<IdentityRecord, AppError>)
    ensures
        r is Ok <==> uuid_parsed(device_id@) is Some && uuid_parsed(space_id@) is Some,
        r matches Ok(identity) ==> {
            &&& uuid_parsed(device_id@) == Some(identity.device_id.bytes@)
            &&& uuid_parsed(space_id@) == Some(identity.space_id.bytes@)
            &&& identity.display_name@ == display_name@
            &&& identity.origin_sequence == (if origin_sequence < 0 { 0 } else { origin_sequence as int })
            &&& identity.hlc == (HlcTimestamp { physical_ms: hlc_physical_ms, logical: hlc_logical })
        },
        r matches Err(e) ==> e is Storage,
{
    let device = match parse_uuid(device_id) {
        Ok(id) => id,
        Err(message) => return Err(AppError::Storage(message)),
    };
    let space = match parse_uuid(space_id) {
        Ok(id) => id,
        Err(message) => return Err(AppError::Storage(message)),
    };
    let sequence: u64 = if origin_sequence < 0 { 0 } else { origin_sequence as u64 };
    Ok(IdentityRecord {
        device_id: device,
        space_id: space,
        display_name,
        origin_sequence: sequence,
        hlc: HlcTimestamp { physical_ms: hlc_physical_ms, logical: hlc_logical },
    })
}

} // verus!
