//! 128-bit identifiers of devices, sync spaces, events and transfers.

use vstd::prelude::*;
use crate::text::push_char;

verus! {

/// A 128-bit identifier, held as its sixteen bytes in big-endian order.
#[derive(Debug, Clone, Copy, PartialEq, Eq, PartialOrd, Ord, Hash)]
pub struct Uuid {
    pub bytes: [u8; 16],
}

/// `a` sorts before `b`: the first byte where they differ is smaller in `a`.
pub open spec fn bytes_lt(a: Seq<u8>, b: Seq<u8>) -> bool {
    exists|i: int|
        0 <= i < a.len() && i < b.len() && a[i] < b[i] && a.subrange(0, i) == b.subrange(0, i)
}

/// The lowercase hexadecimal digit for `n < 16`.
pub open spec fn hex_digit(n: nat) -> char {
    if n < 10 {
        ((n + 48) as u32) as char
    } else {
        ((n + 87) as u32) as char
    }
}

/// Two lowercase hexadecimal digits for one byte, high nibble first.
pub open spec fn hex_byte(b: u8) -> Seq<char> {
    seq![hex_digit((b / 16) as nat), hex_digit((b % 16) as nat)]
}

/// Lowercase hexadecimal of a byte sequence, two digits per byte.
pub open spec fn hex_of(s: Seq<u8>) -> Seq<char>
    decreases s.len(),
{
    if s.len() == 0 {
        Seq::empty()
    } else {
        hex_of(s.drop_last()) + hex_byte(s.last())
    }
}

/// The hyphenated form `xxxxxxxx-xxxx-xxxx-xxxx-xxxxxxxxxxxx` of an identifier.
pub open spec fn hyphenated(b: Seq<u8>) -> Seq<char> {
    hex_of(b.subrange(0, 4)) + seq!['-'] + hex_of(b.subrange(4, 6)) + seq!['-'] + hex_of(
        b.subrange(6, 8),
    ) + seq!['-'] + hex_of(b.subrange(8, 10)) + seq!['-'] + hex_of(b.subrange(10, 16))
}

fn hex_digit_exec(n: u8) -> (c: char)
    requires
        n < 16,
    ensures
        c == hex_digit(n as nat),
{
    if n < 10 {
        let b: u8 = n + 48;
        let c = b as char;
        assert(c == ((n + 48) as u32) as char);
        c
    } else {
        let b: u8 = n + 87;
        let c = b as char;
        assert(c == ((n + 87) as u32) as char);
        c
    }
}

/// Appends the lowercase hexadecimal of `bytes[from..to]` to `out`.
pub fn push_hex(out: &mut String, bytes: &[u8], from: usize, to: usize)
    requires
        from <= to <= bytes@.len(),
    ensures
        final(out)@ == old(out)@ + hex_of(bytes@.subrange(from as int, to as int)),
{
    let ghost start = out@;
    let mut i = from;
    assert(bytes@.subrange(from as int, from as int) =~= Seq::<u8>::empty());
    assert(start + hex_of(Seq::<u8>::empty()) =~= start);
    while i < to
        invariant
            from <= i <= to,
            to <= bytes@.len(),
            out@ == start + hex_of(bytes@.subrange(from as int, i as int)),
        decreases to - i,
    {
        let b = bytes[i];
        push_char(out, hex_digit_exec(b / 16));
        push_char(out, hex_digit_exec(b % 16));
        proof {
            let next = bytes@.subrange(from as int, i + 1);
            assert(next.drop_last() =~= bytes@.subrange(from as int, i as int));
            assert(next.last() == b);
            assert(out@ =~= start + hex_of(next));
        }
        i = i + 1;
    }
}

proof fn lemma_hex_digit_injective(x: nat, y: nat)
    requires
        x < 16,
        y < 16,
        hex_digit(x) == hex_digit(y),
    ensures
        x == y,
{
    let cx = hex_digit(x) as u32;
    let cy = hex_digit(y) as u32;
    assert(cx == cy);
    if x < 10 {
        assert(cx == x + 48);
    } else {
        assert(cx == x + 87);
    }
    if y < 10 {
        assert(cy == y + 48);
    } else {
        assert(cy == y + 87);
    }
}

proof fn lemma_hex_byte_injective(a: u8, b: u8)
    requires
        hex_byte(a) == hex_byte(b),
    ensures
        a == b,
{
    assert(hex_byte(a)[0] == hex_byte(b)[0]);
    assert(hex_byte(a)[1] == hex_byte(b)[1]);
    lemma_hex_digit_injective((a / 16) as nat, (b / 16) as nat);
    lemma_hex_digit_injective((a % 16) as nat, (b % 16) as nat);
}

/// Two digits per byte.
pub proof fn lemma_hex_of_len(s: Seq<u8>)
    ensures
        hex_of(s).len() == 2 * s.len(),
    decreases s.len(),
{
    if s.len() > 0 {
        lemma_hex_of_len(s.drop_last());
    }
}

/// Different byte strings of one length have different hexadecimal forms.
pub proof fn lemma_hex_of_injective(a: Seq<u8>, b: Seq<u8>)
    requires
        a.len() == b.len(),
        hex_of(a) == hex_of(b),
    ensures
        a == b,
    decreases a.len(),
{
    if a.len() > 0 {
        let pa = hex_of(a.drop_last());
        let pb = hex_of(b.drop_last());
        lemma_hex_of_len(a.drop_last());
        lemma_hex_of_len(b.drop_last());
        let n = pa.len() as int;
        assert(hex_of(a).subrange(0, n) =~= pa);
        assert(hex_of(b).subrange(0, n) =~= pb);
        assert(hex_of(a).subrange(n, n + 2) =~= hex_byte(a.last()));
        assert(hex_of(b).subrange(n, n + 2) =~= hex_byte(b.last()));
        lemma_hex_of_injective(a.drop_last(), b.drop_last());
        lemma_hex_byte_injective(a.last(), b.last());
        assert(a =~= a.drop_last().push(a.last()));
        assert(b =~= b.drop_last().push(b.last()));
    }
}

/// Different identifiers have different hyphenated forms.
pub proof fn lemma_hyphenated_injective(a: Seq<u8>, b: Seq<u8>)
    requires
        a.len() == 16,
        b.len() == 16,
        hyphenated(a) == hyphenated(b),
    ensures
        a == b,
{
    let ha = hyphenated(a);
    let hb = hyphenated(b);
    lemma_hex_of_len(a.subrange(0, 4));
    lemma_hex_of_len(a.subrange(4, 6));
    lemma_hex_of_len(a.subrange(6, 8));
    lemma_hex_of_len(a.subrange(8, 10));
    lemma_hex_of_len(a.subrange(10, 16));
    lemma_hex_of_len(b.subrange(0, 4));
    lemma_hex_of_len(b.subrange(4, 6));
    lemma_hex_of_len(b.subrange(6, 8));
    lemma_hex_of_len(b.subrange(8, 10));
    lemma_hex_of_len(b.subrange(10, 16));
    assert(ha.subrange(0, 8) =~= hex_of(a.subrange(0, 4)));
    assert(hb.subrange(0, 8) =~= hex_of(b.subrange(0, 4)));
    assert(ha.subrange(9, 13) =~= hex_of(a.subrange(4, 6)));
    assert(hb.subrange(9, 13) =~= hex_of(b.subrange(4, 6)));
    assert(ha.subrange(14, 18) =~= hex_of(a.subrange(6, 8)));
    assert(hb.subrange(14, 18) =~= hex_of(b.subrange(6, 8)));
    assert(ha.subrange(19, 23) =~= hex_of(a.subrange(8, 10)));
    assert(hb.subrange(19, 23) =~= hex_of(b.subrange(8, 10)));
    assert(ha.subrange(24, 36) =~= hex_of(a.subrange(10, 16)));
    assert(hb.subrange(24, 36) =~= hex_of(b.subrange(10, 16)));
    lemma_hex_of_injective(a.subrange(0, 4), b.subrange(0, 4));
    lemma_hex_of_injective(a.subrange(4, 6), b.subrange(4, 6));
    lemma_hex_of_injective(a.subrange(6, 8), b.subrange(6, 8));
    lemma_hex_of_injective(a.subrange(8, 10), b.subrange(8, 10));
    lemma_hex_of_injective(a.subrange(10, 16), b.subrange(10, 16));
    assert forall|i: int| 0 <= i < 16 implies a[i] == b[i] by {
        if i < 4 {
            assert(a.subrange(0, 4)[i] == a[i]);
            assert(b.subrange(0, 4)[i] == b[i]);
        } else if i < 6 {
            assert(a.subrange(4, 6)[i - 4] == a[i]);
            assert(b.subrange(4, 6)[i - 4] == b[i]);
        } else if i < 8 {
            assert(a.subrange(6, 8)[i - 6] == a[i]);
            assert(b.subrange(6, 8)[i - 6] == b[i]);
        } else if i < 10 {
            assert(a.subrange(8, 10)[i - 8] == a[i]);
            assert(b.subrange(8, 10)[i - 8] == b[i]);
        } else {
            assert(a.subrange(10, 16)[i - 10] == a[i]);
            assert(b.subrange(10, 16)[i - 10] == b[i]);
        }
    }
    assert(a =~= b);
}


/// Byte-wise order is transitive.
pub proof fn lemma_bytes_lt_transitive(a: Seq<u8>, b: Seq<u8>, c: Seq<u8>)
    requires
        bytes_lt(a, b),
        bytes_lt(b, c),
        a.len() == b.len(),
        b.len() == c.len(),
    ensures
        bytes_lt(a, c),
{
    let i = choose|i: int| 0 <= i < a.len() && i < b.len() && a[i] < b[i] && a.subrange(0, i) == b.subrange(0, i);
    let j = choose|j: int| 0 <= j < b.len() && j < c.len() && b[j] < c[j] && b.subrange(0, j) == c.subrange(0, j);
    let k = if i < j { i } else { j };
    assert(a.subrange(0, k) =~= c.subrange(0, k)) by {
        assert forall|t: int| 0 <= t < k implies a.subrange(0, k)[t] == c.subrange(0, k)[t] by {
            assert(a.subrange(0, i)[t] == b.subrange(0, i)[t]);
            assert(b.subrange(0, j)[t] == c.subrange(0, j)[t]);
        }
    }
    if i < j {
        assert(b.subrange(0, j)[i] == c.subrange(0, j)[i]);
    } else if j < i {
        assert(a.subrange(0, i)[j] == b.subrange(0, i)[j]);
    }
}

/// Byte-wise order is asymmetric.
pub proof fn lemma_bytes_lt_asymmetric(a: Seq<u8>, b: Seq<u8>)
    requires
        bytes_lt(a, b),
    ensures
        !bytes_lt(b, a),
{
    let i = choose|i: int| 0 <= i < a.len() && i < b.len() && a[i] < b[i] && a.subrange(0, i) == b.subrange(0, i);
    if bytes_lt(b, a) {
        let j = choose|j: int| 0 <= j < b.len() && j < a.len() && b[j] < a[j] && b.subrange(0, j) == a.subrange(0, j);
        if i < j {
            assert(b.subrange(0, j)[i] == a.subrange(0, j)[i]);
        } else if j < i {
            assert(a.subrange(0, i)[j] == b.subrange(0, i)[j]);
        }
    }
}

/// Of two different byte strings of one length, one sorts before the other.
pub proof fn lemma_bytes_lt_total(a: Seq<u8>, b: Seq<u8>)
    requires
        a.len() == b.len(),
        a != b,
    ensures
        bytes_lt(a, b) || bytes_lt(b, a),
{
    assert(exists|i: int| 0 <= i < a.len() && a[i] != b[i]) by {
        if forall|i: int| 0 <= i < a.len() ==> a[i] == b[i] {
            assert(a =~= b);
        }
    }
    let first = choose|i: int| 0 <= i < a.len() && a[i] != b[i] && forall|j: int| 0 <= j < i ==> a[j] == b[j];
    assert(exists|i: int| 0 <= i < a.len() && a[i] != b[i] && forall|j: int| 0 <= j < i ==> a[j] == b[j]) by {
        let k = choose|i: int| 0 <= i < a.len() && a[i] != b[i];
        lemma_first_difference(a, b, k);
    }
    assert(a.subrange(0, first) =~= b.subrange(0, first));
}

proof fn lemma_first_difference(a: Seq<u8>, b: Seq<u8>, k: int)
    requires
        a.len() == b.len(),
        0 <= k < a.len(),
        a[k] != b[k],
    ensures
        exists|i: int| 0 <= i < a.len() && a[i] != b[i] && forall|j: int| 0 <= j < i ==> a[j] == b[j],
    decreases k,
{
    if exists|j: int| 0 <= j < k && a[j] != b[j] {
        let j = choose|j: int| 0 <= j < k && a[j] != b[j];
        lemma_first_difference(a, b, j);
    } else {
        assert(forall|j: int| 0 <= j < k ==> a[j] == b[j]);
    }
}

/// `text` is the hyphenated form of some identifier.
pub open spec fn is_hyphenated_form(text: Seq<char>) -> bool {
    exists|b: Seq<u8>| b.len() == 16 && text == hyphenated(b)
}

/// The bytes `uuid::Uuid::parse_str` reads from `text`, if it accepts it.
pub uninterp spec fn uuid_parsed(text: Seq<char>) -> Option<Seq<u8>>;

/// `uuid::Uuid::parse_str(text)`: the identifier, or the parse error's
/// text. The crate accepts the hyphenated form it writes, which therefore
/// reads back as the same bytes.
#[verifier::external_body]
pub(crate) fn parse_uuid(text: &str) -> (r: Result<Uuid, String>)
    ensures
        match r {
            Ok(u) => uuid_parsed(text@) == Some(u.bytes@),
            Err(_) => uuid_parsed(text@) is None,
        },
        r matches Ok(u) ==> (is_hyphenated_form(text@) ==> hyphenated(u.bytes@) == text@),
        r is Err ==> !is_hyphenated_form(text@),
{
    match uuid::Uuid::parse_str(text) {
        Ok(u) => Ok(Uuid { bytes: u.into_bytes() }),
        Err(error) => Err(error.to_string()),
    }
}

/// `uuid::Uuid::new_v4()`: a random identifier.
#[verifier::external_body]
pub(crate) fn random_uuid() -> (u: Uuid) {
    Uuid { bytes: uuid::Uuid::new_v4().into_bytes() }
}

impl Uuid {
    pub fn from_bytes(bytes: [u8; 16]) -> (u: Uuid)
        ensures
            u.bytes == bytes,
    {
        Uuid { bytes }
    }

    /// The all-zero identifier.
    pub fn nil() -> (u: Uuid)
        ensures
            forall|i: int| 0 <= i < 16 ==> u.bytes[i] == 0,
    {
        Uuid { bytes: [0u8; 16] }
    }

    /// Whether two identifiers are the same.
    pub fn same(&self, other: &Uuid) -> (b: bool)
        ensures
            b == (self.bytes@ == other.bytes@),
            b == (*self == *other),
    {
        let mut i: usize = 0;
        while i < 16
            invariant
                i <= 16,
                forall|j: int| 0 <= j < i ==> self.bytes@[j] == other.bytes@[j],
            decreases 16 - i,
        {
            if self.bytes[i] != other.bytes[i] {
                return false;
            }
            i = i + 1;
        }
        assert(self.bytes@ =~= other.bytes@);
        assert(self.bytes =~= other.bytes);
        true
    }

    /// Whether `self` sorts strictly before `other` (byte-wise).
    pub fn precedes(&self, other: &Uuid) -> (b: bool)
        ensures
            b == bytes_lt(self.bytes@, other.bytes@),
    {
        let mut i: usize = 0;
        while i < 16
            invariant
                i <= 16,
                self.bytes@.subrange(0, i as int) == other.bytes@.subrange(0, i as int),
            decreases 16 - i,
        {
            if self.bytes[i] != other.bytes[i] {
                let lt = self.bytes[i] < other.bytes[i];
                proof {
                    if !lt {
                        assert forall|k: int|
                            0 <= k < 16 && self.bytes@[k] < other.bytes@[k]
                                && self.bytes@.subrange(0, k) == other.bytes@.subrange(
                                0,
                                k,
                            ) implies false by {
                            if k < i {
                                assert(self.bytes@.subrange(0, i as int)[k] == self.bytes@[k]);
                                assert(other.bytes@.subrange(0, i as int)[k] == other.bytes@[k]);
                            } else if k > i {
                                assert(self.bytes@.subrange(0, k)[i as int] == self.bytes@[i as int]);
                                assert(other.bytes@.subrange(0, k)[i as int] == other.bytes@[i as int]);
                            }
                        }
                    }
                }
                return lt;
            }
            assert(self.bytes@.subrange(0, i + 1) =~= self.bytes@.subrange(0, i as int).push(
                self.bytes@[i as int],
            ));
            assert(other.bytes@.subrange(0, i + 1) =~= other.bytes@.subrange(0, i as int).push(
                other.bytes@[i as int],
            ));
            i = i + 1;
        }
        proof {
            assert forall|k: int|
                0 <= k < 16 && self.bytes@[k] < other.bytes@[k] && self.bytes@.subrange(0, k)
                    == other.bytes@.subrange(0, k) implies false by {
                assert(self.bytes@.subrange(0, 16)[k] == self.bytes@[k]);
                assert(other.bytes@.subrange(0, 16)[k] == other.bytes@[k]);
            }
        }
        false
    }

    /// The hyphenated lowercase form, as stored and displayed.
    pub fn to_hyphenated(&self) -> (s: String)
        ensures
            s@ == hyphenated(self.bytes@),
    {
        let mut s = String::new();
        let b = self.bytes.as_slice();
        push_hex(&mut s, b, 0, 4);
        push_char(&mut s, '-');
        push_hex(&mut s, b, 4, 6);
        push_char(&mut s, '-');
        push_hex(&mut s, b, 6, 8);
        push_char(&mut s, '-');
        push_hex(&mut s, b, 8, 10);
        push_char(&mut s, '-');
        push_hex(&mut s, b, 10, 16);
        assert(s@ =~= hyphenated(self.bytes@));
        s
    }

    /// The thirty-two lowercase hexadecimal digits, without hyphens.
    pub fn to_simple(&self) -> (s: String)
        ensures
            s@ == hex_of(self.bytes@),
    {
        let mut s = String::new();
        push_hex(&mut s, self.bytes.as_slice(), 0, 16);
        assert(self.bytes@.subrange(0, 16) =~= self.bytes@);
        s
    }
}

} // verus!
