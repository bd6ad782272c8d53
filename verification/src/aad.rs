//! The associated data that binds each encrypted record to its metadata:
//! length-prefixed fields after a label that names the record kind.

use vstd::prelude::*;
use vstd::utf8::encode_utf8;
use crate::transport::append_bytes;

verus! {

/// Purpose recorded for the clipboard data keys.
pub const DATA_KEY_PURPOSE: &'static str = "clipboard-content";

/// Algorithm the clipboard data keys are used with.
pub const DATA_KEY_ALGORITHM: &'static str = "xchacha20poly1305-v1";

/// Algorithm the data keys are wrapped with.
pub const KEY_WRAP_ALGORITHM: &'static str = "xchacha20poly1305-wrap-v1";

/// Encryption format of clipboard rows bound to their identifier only.
pub const LEGACY_CLIPBOARD_CRYPTO_VERSION: i64 = 1;

/// Encryption format of clipboard rows bound to all their metadata.
pub const CLIPBOARD_CRYPTO_VERSION: i64 = 2;

/// Encryption format of local secrets.
pub const LOCAL_SECRET_CRYPTO_VERSION: i64 = 1;

/// The `k` low bytes of `n`, least significant first.
pub open spec fn le_bytes(n: nat, k: nat) -> Seq<u8>
    decreases k,
{
    if k == 0 {
        Seq::empty()
    } else {
        seq![(n % 256) as u8] + le_bytes(n / 256, (k - 1) as nat)
    }
}

/// `n.to_le_bytes()` for a `u64`.
pub open spec fn le64(n: u64) -> Seq<u8> {
    le_bytes(n as nat, 8)
}

/// `n.to_le_bytes()` for an `i64`: its two's-complement bits.
pub open spec fn le64_signed(n: i64) -> Seq<u8> {
    le_bytes((n as u64) as nat, 8)
}

/// `n.to_le_bytes()` for a `u32`.
pub open spec fn le32(n: u32) -> Seq<u8> {
    le_bytes(n as nat, 4)
}

/// A length-prefixed field: the length as eight little-endian bytes, then the bytes.
pub open spec fn field(value: Seq<u8>) -> Seq<u8> {
    le64(value.len() as u64) + value
}

/// The bytes of a string literal.
pub open spec fn utf8(s: Seq<char>) -> Seq<u8> {
    encode_utf8(s)
}

/// Associated data of a wrapped data key.
pub open spec fn wrapped_key_aad_spec(database_id: Seq<char>, key_id: Seq<char>) -> Seq<u8> {
    utf8("synchalo:wrapped-data-key"@) + field(utf8(database_id)) + field(utf8(key_id)) + field(
        utf8(DATA_KEY_PURPOSE@),
    ) + field(utf8(DATA_KEY_ALGORITHM@)) + field(utf8(KEY_WRAP_ALGORITHM@))
}

/// Associated data of a local secret.
pub open spec fn local_secret_aad_spec(secret_id: Seq<char>, key_id: Seq<char>) -> Seq<u8> {
    utf8("synchalo:local-secret"@) + le64_signed(LOCAL_SECRET_CRYPTO_VERSION) + field(utf8(secret_id))
        + field(utf8(key_id))
}

/// Associated data of a clipboard row in the current format.
pub open spec fn clipboard_aad_spec(
    event_id: Seq<char>,
    source_device_id: Seq<char>,
    source_device_name: Seq<char>,
    direction: Seq<char>,
    created_at_ms: i64,
    hlc_physical_ms: i64,
    hlc_logical: u32,
    content_hash: Seq<char>,
    key_id: Seq<char>,
) -> Seq<u8> {
    utf8("synchalo:clipboard-content"@) + le64_signed(CLIPBOARD_CRYPTO_VERSION) + field(utf8(event_id))
        + field(utf8(source_device_id)) + field(utf8(source_device_name)) + field(utf8(direction))
        + le64_signed(created_at_ms) + le64_signed(hlc_physical_ms) + le32(hlc_logical) + field(
        utf8(content_hash),
    ) + field(utf8(key_id))
}

/// Appends the `k` low bytes of `n`, least significant first.
pub fn push_le(out: &mut Vec<u8>, n: u64, k: usize)
    requires
        k <= 8,
    ensures
        final(out)@ == old(out)@ + le_bytes(n as nat, k as nat),
{
    let ghost start = out@;
    let mut x = n;
    let mut i: usize = 0;
    while i < k
        invariant
            i <= k,
            out@ + le_bytes(x as nat, (k - i) as nat) == start + le_bytes(n as nat, k as nat),
        decreases k - i,
    {
        let ghost before = out@;
        out.push((x % 256) as u8);
        proof {
            assert(le_bytes(x as nat, (k - i) as nat) == seq![(x % 256) as u8] + le_bytes(
                (x / 256) as nat,
                (k - i - 1) as nat,
            ));
            assert(out@ + le_bytes((x / 256) as nat, (k - i - 1) as nat) =~= before + le_bytes(
                x as nat,
                (k - i) as nat,
            ));
        }
        x = x / 256;
        i = i + 1;
    }
    assert(le_bytes(x as nat, 0) =~= Seq::<u8>::empty());
    assert(out@ =~= start + le_bytes(n as nat, k as nat));
}

/// Appends a length-prefixed field.
pub fn append_aad_field(associated_data: &mut Vec<u8>, value: &[u8])
    ensures
        final(associated_data)@ == old(associated_data)@ + field(value@),
{
    push_le(associated_data, value.len() as u64, 8);
    append_bytes(associated_data, value);
    assert(final(associated_data)@ =~= old(associated_data)@ + field(value@));
}

/// Associated data that binds a wrapped data key to its database and identifier.
pub fn wrapped_key_associated_data(database_id: &str, key_id: &str) -> (aad: Vec<u8>)
    ensures
        aad@ == wrapped_key_aad_spec(database_id@, key_id@),
{
    let mut aad: Vec<u8> = Vec::new();
    append_bytes(&mut aad, "synchalo:wrapped-data-key".as_bytes());
    append_aad_field(&mut aad, database_id.as_bytes());
    append_aad_field(&mut aad, key_id.as_bytes());
    append_aad_field(&mut aad, DATA_KEY_PURPOSE.as_bytes());
    append_aad_field(&mut aad, DATA_KEY_ALGORITHM.as_bytes());
    append_aad_field(&mut aad, KEY_WRAP_ALGORITHM.as_bytes());
    assert(aad@ =~= wrapped_key_aad_spec(database_id@, key_id@));
    aad
}

/// Associated data that binds a local secret to its identifier and data key.
pub fn local_secret_associated_data(secret_id: &str, key_id: &str) -> (aad: Vec<u8>)
    ensures
        aad@ == local_secret_aad_spec(secret_id@, key_id@),
{
    let mut aad: Vec<u8> = Vec::new();
    append_bytes(&mut aad, "synchalo:local-secret".as_bytes());
    push_le(&mut aad, LOCAL_SECRET_CRYPTO_VERSION as u64, 8);
    append_aad_field(&mut aad, secret_id.as_bytes());
    append_aad_field(&mut aad, key_id.as_bytes());
    assert(aad@ =~= local_secret_aad_spec(secret_id@, key_id@));
    aad
}

/// Associated data that binds a clipboard row's content to all of its
/// metadata and to its data key.
pub fn clipboard_associated_data_v2(
    event_id: &str,
    source_device_id: &str,
    source_device_name: &str,
    direction: &str,
    created_at_ms: i64,
    hlc_physical_ms: i64,
    hlc_logical: u32,
    content_hash: &str,
    key_id: &str,
) -> (aad: Vec<u8>)
    ensures
        aad@ == clipboard_aad_spec(
            event_id@,
            source_device_id@,
            source_device_name@,
            direction@,
            created_at_ms,
            hlc_physical_ms,
            hlc_logical,
            content_hash@,
            key_id@,
        ),
{
    let mut aad: Vec<u8> = Vec::new();
    append_bytes(&mut aad, "synchalo:clipboard-content".as_bytes());
    push_le(&mut aad, CLIPBOARD_CRYPTO_VERSION as u64, 8);
    append_aad_field(&mut aad, event_id.as_bytes());
    append_aad_field(&mut aad, source_device_id.as_bytes());
    append_aad_field(&mut aad, source_device_name.as_bytes());
    append_aad_field(&mut aad, direction.as_bytes());
    push_le(&mut aad, created_at_ms as u64, 8);
    push_le(&mut aad, hlc_physical_ms as u64, 8);
    push_le(&mut aad, hlc_logical as u64, 4);
    append_aad_field(&mut aad, content_hash.as_bytes());
    append_aad_field(&mut aad, key_id.as_bytes());
    assert(aad@ =~= clipboard_aad_spec(
        event_id@,
        source_device_id@,
        source_device_name@,
        direction@,
        created_at_ms,
        hlc_physical_ms,
        hlc_logical,
        content_hash@,
        key_id@,
    ));
    aad
}

/// 256 to the power `k`: the number of values `k` bytes can hold.
pub open spec fn byte_power(k: nat) -> nat
    decreases k,
{
    if k == 0 {
        1
    } else {
        256 * byte_power((k - 1) as nat)
    }
}

proof fn lemma_le_bytes_len(n: nat, k: nat)
    ensures
        le_bytes(n, k).len() == k,
    decreases k,
{
    if k > 0 {
        lemma_le_bytes_len(n / 256, (k - 1) as nat);
    }
}

/// Two numbers below `256^k` with the same `k` low bytes are equal.
proof fn lemma_le_bytes_injective(n: nat, m: nat, k: nat)
    requires
        n < byte_power(k),
        m < byte_power(k),
        le_bytes(n, k) == le_bytes(m, k),
    ensures
        n == m,
    decreases k,
{
    if k > 0 {
        let p = byte_power((k - 1) as nat);
        let a = le_bytes(n, k);
        let b = le_bytes(m, k);
        lemma_le_bytes_len(n / 256, (k - 1) as nat);
        lemma_le_bytes_len(m / 256, (k - 1) as nat);
        assert(a[0] == b[0]);
        assert(n % 256 == m % 256);
        assert(a.subrange(1, a.len() as int) =~= le_bytes(n / 256, (k - 1) as nat));
        assert(b.subrange(1, b.len() as int) =~= le_bytes(m / 256, (k - 1) as nat));
        assert(n / 256 < p) by (nonlinear_arith)
            requires
                n < 256 * p,
        ;
        assert(m / 256 < p) by (nonlinear_arith)
            requires
                m < 256 * p,
        ;
        lemma_le_bytes_injective(n / 256, m / 256, (k - 1) as nat);
        assert(n == 256 * (n / 256) + n % 256) by (nonlinear_arith);
        assert(m == 256 * (m / 256) + m % 256) by (nonlinear_arith);
    }
}

proof fn lemma_le64_injective(a: u64, b: u64)
    requires
        le64(a) == le64(b),
    ensures
        a == b,
{
    assert(byte_power(8) == 18446744073709551616) by {
        reveal_with_fuel(byte_power, 9);
    }
    lemma_le_bytes_injective(a as nat, b as nat, 8);
}

proof fn lemma_le64_signed_injective(a: i64, b: i64)
    requires
        le64_signed(a) == le64_signed(b),
    ensures
        a == b,
{
    lemma_le64_injective(a as u64, b as u64);
    assert((a as u64) == (b as u64) ==> a == b) by (bit_vector);
}

proof fn lemma_le32_injective(a: u32, b: u32)
    requires
        le32(a) == le32(b),
    ensures
        a == b,
{
    assert(byte_power(4) == 4294967296) by {
        reveal_with_fuel(byte_power, 5);
    }
    lemma_le_bytes_injective(a as nat, b as nat, 4);
}

/// Equal sequences that start with parts of one length start with the same
/// part and go on the same way.
proof fn lemma_same_start(p: Seq<u8>, q: Seq<u8>, r: Seq<u8>, s: Seq<u8>)
    requires
        p.len() == q.len(),
        p + r == q + s,
    ensures
        p == q,
        r == s,
{
    assert(p =~= (p + r).subrange(0, p.len() as int));
    assert(q =~= (q + s).subrange(0, q.len() as int));
    assert(r =~= (p + r).subrange(p.len() as int, (p + r).len() as int));
    assert(s =~= (q + s).subrange(q.len() as int, (q + s).len() as int));
}

/// A length-prefixed field is read back whole: what follows it is the rest.
proof fn lemma_field_start(x: Seq<u8>, y: Seq<u8>, r: Seq<u8>, s: Seq<u8>)
    requires
        x.len() <= u64::MAX,
        y.len() <= u64::MAX,
        field(x) + r == field(y) + s,
    ensures
        x == y,
        r == s,
{
    lemma_le_bytes_len(x.len(), 8);
    lemma_le_bytes_len(y.len(), 8);
    assert(field(x) + r =~= le64(x.len() as u64) + (x + r));
    assert(field(y) + s =~= le64(y.len() as u64) + (y + s));
    lemma_same_start(le64(x.len() as u64), le64(y.len() as u64), x + r, y + s);
    lemma_le64_injective(x.len() as u64, y.len() as u64);
    lemma_same_start(x, y, r, s);
}

/// The UTF-8 of a text fits a length prefix.
pub open spec fn fits_field(s: Seq<char>) -> bool {
    utf8(s).len() <= u64::MAX
}

/// The clipboard associated data after its label and version, grouped from
/// the right.
pub open spec fn clipboard_aad_fields(
    event_id: Seq<char>,
    source_device_id: Seq<char>,
    source_device_name: Seq<char>,
    direction: Seq<char>,
    created_at_ms: i64,
    hlc_physical_ms: i64,
    hlc_logical: u32,
    content_hash: Seq<char>,
    key_id: Seq<char>,
) -> Seq<u8> {
    field(utf8(event_id)) + (field(utf8(source_device_id)) + (field(utf8(source_device_name)) + (
    field(utf8(direction)) + (le64_signed(created_at_ms) + (le64_signed(hlc_physical_ms) + (le32(
        hlc_logical,
    ) + (field(utf8(content_hash)) + field(utf8(key_id)))))))))
}

proof fn lemma_clipboard_aad_split(
    event_id: Seq<char>,
    source_device_id: Seq<char>,
    source_device_name: Seq<char>,
    direction: Seq<char>,
    created_at_ms: i64,
    hlc_physical_ms: i64,
    hlc_logical: u32,
    content_hash: Seq<char>,
    key_id: Seq<char>,
)
    ensures
        clipboard_aad_spec(
            event_id,
            source_device_id,
            source_device_name,
            direction,
            created_at_ms,
            hlc_physical_ms,
            hlc_logical,
            content_hash,
            key_id,
        ) == utf8("synchalo:clipboard-content"@) + le64_signed(CLIPBOARD_CRYPTO_VERSION)
            + clipboard_aad_fields(
            event_id,
            source_device_id,
            source_device_name,
            direction,
            created_at_ms,
            hlc_physical_ms,
            hlc_logical,
            content_hash,
            key_id,
        ),
{
    assert(clipboard_aad_spec(
        event_id,
        source_device_id,
        source_device_name,
        direction,
        created_at_ms,
        hlc_physical_ms,
        hlc_logical,
        content_hash,
        key_id,
    ) =~= utf8("synchalo:clipboard-content"@) + le64_signed(CLIPBOARD_CRYPTO_VERSION)
        + clipboard_aad_fields(
        event_id,
        source_device_id,
        source_device_name,
        direction,
        created_at_ms,
        hlc_physical_ms,
        hlc_logical,
        content_hash,
        key_id,
    ));
}

/// Two fixed-width numbers followed by the rest: equal sequences hold equal
/// numbers and equal rests.
proof fn lemma_numbers_start(a: i64, b: i64, c: i64, d: i64, r: Seq<u8>, s: Seq<u8>)
    requires
        le64_signed(a) + (le64_signed(b) + r) == le64_signed(c) + (le64_signed(d) + s),
    ensures
        a == c,
        b == d,
        r == s,
{
    lemma_le_bytes_len((a as u64) as nat, 8);
    lemma_le_bytes_len((b as u64) as nat, 8);
    lemma_le_bytes_len((c as u64) as nat, 8);
    lemma_le_bytes_len((d as u64) as nat, 8);
    lemma_same_start(le64_signed(a), le64_signed(c), le64_signed(b) + r, le64_signed(d) + s);
    lemma_same_start(le64_signed(b), le64_signed(d), r, s);
    lemma_le64_signed_injective(a, c);
    lemma_le64_signed_injective(b, d);
}

proof fn lemma_text_field_start(x: Seq<char>, y: Seq<char>, r: Seq<u8>, s: Seq<u8>)
    requires
        fits_field(x),
        fits_field(y),
        field(utf8(x)) + r == field(utf8(y)) + s,
    ensures
        x == y,
        r == s,
{
    lemma_field_start(utf8(x), utf8(y), r, s);
    vstd::utf8::encode_utf8_decode_utf8(x);
    vstd::utf8::encode_utf8_decode_utf8(y);
}

/// The associated data of a clipboard row determines the row's metadata:
/// two rows whose associated data are equal agree on every field (the
/// fields are length-prefixed and the numbers have fixed widths), so a
/// ciphertext bound to one row's metadata is never bound to another's.
pub proof fn lemma_clipboard_aad_injective(
    event_id: Seq<char>,
    source_device_id: Seq<char>,
    source_device_name: Seq<char>,
    direction: Seq<char>,
    created_at_ms: i64,
    hlc_physical_ms: i64,
    hlc_logical: u32,
    content_hash: Seq<char>,
    key_id: Seq<char>,
    other_event_id: Seq<char>,
    other_source_device_id: Seq<char>,
    other_source_device_name: Seq<char>,
    other_direction: Seq<char>,
    other_created_at_ms: i64,
    other_hlc_physical_ms: i64,
    other_hlc_logical: u32,
    other_content_hash: Seq<char>,
    other_key_id: Seq<char>,
)
    requires
        fits_field(event_id) && fits_field(source_device_id) && fits_field(source_device_name),
        fits_field(direction) && fits_field(content_hash) && fits_field(key_id),
        fits_field(other_event_id) && fits_field(other_source_device_id),
        fits_field(other_source_device_name) && fits_field(other_direction),
        fits_field(other_content_hash) && fits_field(other_key_id),
        clipboard_aad_spec(
            event_id,
            source_device_id,
            source_device_name,
            direction,
            created_at_ms,
            hlc_physical_ms,
            hlc_logical,
            content_hash,
            key_id,
        ) == clipboard_aad_spec(
            other_event_id,
            other_source_device_id,
            other_source_device_name,
            other_direction,
            other_created_at_ms,
            other_hlc_physical_ms,
            other_hlc_logical,
            other_content_hash,
            other_key_id,
        ),
    ensures
        event_id == other_event_id,
        source_device_id == other_source_device_id,
        source_device_name == other_source_device_name,
        direction == other_direction,
        created_at_ms == other_created_at_ms,
        hlc_physical_ms == other_hlc_physical_ms,
        hlc_logical == other_hlc_logical,
        content_hash == other_content_hash,
        key_id == other_key_id,
{
    let head = utf8("synchalo:clipboard-content"@) + le64_signed(CLIPBOARD_CRYPTO_VERSION);
    lemma_clipboard_aad_split(
        event_id,
        source_device_id,
        source_device_name,
        direction,
        created_at_ms,
        hlc_physical_ms,
        hlc_logical,
        content_hash,
        key_id,
    );
    lemma_clipboard_aad_split(
        other_event_id,
        other_source_device_id,
        other_source_device_name,
        other_direction,
        other_created_at_ms,
        other_hlc_physical_ms,
        other_hlc_logical,
        other_content_hash,
        other_key_id,
    );
    let a = clipboard_aad_fields(
        event_id,
        source_device_id,
        source_device_name,
        direction,
        created_at_ms,
        hlc_physical_ms,
        hlc_logical,
        content_hash,
        key_id,
    );
    let b = clipboard_aad_fields(
        other_event_id,
        other_source_device_id,
        other_source_device_name,
        other_direction,
        other_created_at_ms,
        other_hlc_physical_ms,
        other_hlc_logical,
        other_content_hash,
        other_key_id,
    );
    lemma_same_start(head, head, a, b);
    let a8 = field(utf8(content_hash)) + field(utf8(key_id));
    let b8 = field(utf8(other_content_hash)) + field(utf8(other_key_id));
    let a6 = le64_signed(created_at_ms) + (le64_signed(hlc_physical_ms) + (le32(hlc_logical) + a8));
    let b6 = le64_signed(other_created_at_ms) + (le64_signed(other_hlc_physical_ms) + (le32(
        other_hlc_logical,
    ) + b8));
    let a5 = field(utf8(direction)) + a6;
    let b5 = field(utf8(other_direction)) + b6;
    let a4 = field(utf8(source_device_name)) + a5;
    let b4 = field(utf8(other_source_device_name)) + b5;
    let a3 = field(utf8(source_device_id)) + a4;
    let b3 = field(utf8(other_source_device_id)) + b4;
    lemma_text_field_start(event_id, other_event_id, a3, b3);
    lemma_text_field_start(source_device_id, other_source_device_id, a4, b4);
    lemma_text_field_start(source_device_name, other_source_device_name, a5, b5);
    lemma_text_field_start(direction, other_direction, a6, b6);
    lemma_numbers_start(
        created_at_ms,
        hlc_physical_ms,
        other_created_at_ms,
        other_hlc_physical_ms,
        le32(hlc_logical) + a8,
        le32(other_hlc_logical) + b8,
    );
    lemma_le_bytes_len(hlc_logical as nat, 4);
    lemma_le_bytes_len(other_hlc_logical as nat, 4);
    lemma_same_start(le32(hlc_logical), le32(other_hlc_logical), a8, b8);
    lemma_le32_injective(hlc_logical, other_hlc_logical);
    lemma_text_field_start(content_hash, other_content_hash, field(utf8(key_id)), field(utf8(other_key_id)));
    assert(field(utf8(key_id)) + Seq::<u8>::empty() =~= field(utf8(key_id)));
    assert(field(utf8(other_key_id)) + Seq::<u8>::empty() =~= field(utf8(other_key_id)));
    lemma_text_field_start(key_id, other_key_id, Seq::empty(), Seq::empty());
}

} // verus!
