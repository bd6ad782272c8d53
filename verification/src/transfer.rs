//! File transfer rules: which file names and digests a manifest may carry,
//! where an incoming file lands, how an interrupted transfer resumes, and
//! when a received file is accepted.

use vstd::prelude::*;
use crate::error::AppError;
use crate::history::split_on;
use crate::ids::{hex_of, hyphenated, Uuid};
use crate::primitives::{blake3_digest, content_hash};
use crate::text::{
    chars_of, concat2, concat3, decimal, is_ascii_hexdigit, string_from_chars, u64_to_decimal,
};

verus! {

/// Files travel in chunks of this many bytes.
pub const TRANSFER_CHUNK_BYTES: usize = 4194304;

/// Free space an incoming file must leave on the receiving disk.
pub const DISK_SAFETY_MARGIN_BYTES: u64 = 67108864;

/// What a sender announces about a file.
#[derive(Debug, Clone)]
pub struct FileManifest {
    pub id: Uuid,
    pub file_name: String,
    pub file_size: u64,
    pub blake3: String,
    pub modified_unix_ms: Option<u64>,
    /// The BLAKE3 digest of each chunk of `TRANSFER_CHUNK_BYTES` bytes (the
    /// last one shorter), in order; empty for a manifest that announces the
    /// whole-file digest alone.
    pub chunk_blake3: Vec<String>,
}

/// A name that is one ordinary path component: not empty, not `.` or `..`,
/// and free of `/`, `\` and NUL.
pub open spec fn is_safe_file_name(name: Seq<char>) -> bool {
    &&& name.len() > 0
    &&& name != "."@
    &&& name != ".."@
    &&& forall|i: int| 0 <= i < name.len() ==> #[trigger] name[i] != '/' && name[i] != '\\' && name[i] != '\0'
}

/// Sixty-four hexadecimal digits.
pub open spec fn is_hex_digest(s: Seq<char>) -> bool {
    s.len() == 64 && forall|i: int| 0 <= i < s.len() ==> is_ascii_hexdigit(#[trigger] s[i])
}

pub open spec fn has_char(s: Seq<char>, c: char) -> bool {
    exists|i: int| 0 <= i < s.len() && s[i] == c
}

fn find_char(s: &Vec<char>, c: char) -> (found: bool)
    ensures
        found == has_char(s@, c),
{
    let mut i: usize = 0;
    while i < s.len()
        invariant
            i <= s@.len(),
            forall|j: int| 0 <= j < i ==> s@[j] != c,
        decreases s@.len() - i,
    {
        if s[i] == c {
            return true;
        }
        i = i + 1;
    }
    false
}

/// A piece between separators that stands for a component: not empty
/// (repeated separators) and not `.` (the current directory, skipped).
pub open spec fn is_component_piece(p: Seq<char>) -> bool {
    p.len() > 0 && p != seq!['.']
}

/// The named components of a `/`-separated path, `..` included.
pub open spec fn path_pieces(name: Seq<char>) -> Seq<Seq<char>> {
    split_on(name, '/').filter(|p: Seq<char>| is_component_piece(p))
}

/// Whether the path starts with a component of its own: the root (a
/// leading `/`), or the current directory (a leading `.` alone or before a
/// `/`).
pub open spec fn has_leading_component(name: Seq<char>) -> bool {
    name.len() > 0 && (name[0] == '/' || (name[0] == '.' && (name.len() == 1 || name[1] == '/')))
}

/// How many components a `/`-separated path has.
pub open spec fn component_count(name: Seq<char>) -> nat {
    (if has_leading_component(name) { 1nat } else { 0nat }) + path_pieces(name).len()
}

/// The last component, when it is an ordinary name (not `..`, the root or
/// the current directory).
pub open spec fn path_file_name(name: Seq<char>) -> Option<Seq<char>> {
    let pieces = path_pieces(name);
    if pieces.len() > 0 && pieces.last() != seq!['.', '.'] {
        Some(pieces.last())
    } else {
        None
    }
}

/// One character more splits as before, with the last piece extended, or
/// with a new empty piece after a separator.
proof fn lemma_split_push(s: Seq<char>, c: char)
    ensures
        split_on(s.push(c), '/') == (if c == '/' {
            split_on(s, '/').push(Seq::<char>::empty())
        } else {
            split_on(s, '/').update(split_on(s, '/').len() - 1, split_on(s, '/').last().push(c))
        }),
{
    assert(s.push(c).drop_last() =~= s);
    assert(s.push(c).last() == c);
}

/// The components a path with `/` separators splits into: how many there
/// are (counted up to two), and the last one when it is an ordinary name.
fn path_shape(name: &Vec<char>) -> (r: (usize, Option<Vec<char>>))
    ensures
        r.0 == (if component_count(name@) < 2 { component_count(name@) } else { 2 }),
        match r.1 {
            Some(last) => path_file_name(name@) == Some(last@),
            None => path_file_name(name@) is None,
        },
        r.1 matches Some(last) ==> !has_char(last@, '/'),
{
    let ghost kept = |p: Seq<char>| is_component_piece(p);
    let has_root = name.len() > 0 && name[0] == '/';
    let starts_current = !has_root && name.len() > 0 && name[0] == '.' && (name.len() == 1 || name[1] == '/');
    let mut count: usize = 0;
    if has_root || starts_current {
        count = 1;
    }
    let mut last: Option<Vec<char>> = if has_root || starts_current {
        None
    } else {
        Some(Vec::new())
    };
    let mut last_is_name = false;
    let mut piece: Vec<char> = Vec::new();
    let mut i: usize = 0;
    let n = name.len();
    let ghost lead: nat = if has_leading_component(name@) { 1nat } else { 0nat };
    assert((has_root || starts_current) == has_leading_component(name@));
    assert(name@.subrange(0, 0) =~= Seq::<char>::empty());
    assert(split_on(Seq::<char>::empty(), '/').drop_last() =~= Seq::<Seq<char>>::empty());
    while i < n
        invariant
            i <= n,
            n == name@.len(),
            kept == (|p: Seq<char>| is_component_piece(p)),
            lead == (if has_leading_component(name@) { 1nat } else { 0nat }),
            !has_char(piece@, '/'),
            last matches Some(l) ==> !has_char(l@, '/'),
            split_on(name@.subrange(0, i as int), '/').len() >= 1,
            piece@ == split_on(name@.subrange(0, i as int), '/').last(),
            ({
                let done = split_on(name@.subrange(0, i as int), '/').drop_last().filter(kept);
                &&& count == (if lead + done.len() < 2 { lead + done.len() } else { 2 })
                &&& done.len() > 0 ==> (last matches Some(l) && l@ == done.last() && last_is_name == (
                    done.last() != seq!['.', '.']))
                &&& done.len() == 0 ==> !last_is_name
            }),
        decreases n - i,
    {
        let ghost before = name@.subrange(0, i as int);
        let ghost split_before = split_on(before, '/');
        proof {
            assert(name@.subrange(0, i + 1) =~= before.push(name@[i as int]));
            lemma_split_push(before, name@[i as int]);
        }
        if name[i] == '/' {
            let is_dot = piece.len() == 1 && piece[0] == '.';
            proof {
                let after = split_before.push(Seq::<char>::empty());
                assert(after.drop_last() =~= split_before);
                assert(split_before =~= split_before.drop_last().push(split_before.last()));
                split_before.drop_last().lemma_filter_push(split_before.last(), kept);
                assert(is_dot == (piece@ == seq!['.'])) by {
                    if piece@ == seq!['.'] {
                        assert(piece@[0] == '.');
                    }
                    if is_dot {
                        assert(piece@ =~= seq!['.']);
                    }
                }
            }
            if piece.len() > 0 && !is_dot {
                if count < 2 {
                    count = count + 1;
                }
                let is_parent = piece.len() == 2 && piece[0] == '.' && piece[1] == '.';
                proof {
                    assert(is_parent == (piece@ == seq!['.', '.'])) by {
                        if piece@ == seq!['.', '.'] {
                            assert(piece@[0] == '.' && piece@[1] == '.');
                        }
                        if is_parent {
                            assert(piece@ =~= seq!['.', '.']);
                        }
                    }
                }
                last_is_name = !is_parent;
                last = Some(piece.clone());
            }
            piece = Vec::new();
        } else {
            piece.push(name[i]);
            proof {
                let after = split_before.update(split_before.len() - 1, split_before.last().push(name@[i as int]));
                assert(after.drop_last() =~= split_before.drop_last());
                assert forall|j: int| 0 <= j < piece@.len() implies piece@[j] != '/' by {
                    if j < piece@.len() - 1 {
                    }
                }
            }
        }
        i = i + 1;
    }
    proof {
        assert(name@.subrange(0, n as int) =~= name@);
    }
    let ghost split_all = split_on(name@, '/');
    let is_dot = piece.len() == 1 && piece[0] == '.';
    proof {
        assert(split_all =~= split_all.drop_last().push(split_all.last()));
        split_all.drop_last().lemma_filter_push(split_all.last(), kept);
        assert(path_pieces(name@) == split_all.filter(kept));
        assert(is_dot == (piece@ == seq!['.'])) by {
            if piece@ == seq!['.'] {
                assert(piece@[0] == '.');
            }
            if is_dot {
                assert(piece@ =~= seq!['.']);
            }
        }
    }
    if piece.len() > 0 && !is_dot {
        if count < 2 {
            count = count + 1;
        }
        let is_parent = piece.len() == 2 && piece[0] == '.' && piece[1] == '.';
        proof {
            assert(is_parent == (piece@ == seq!['.', '.'])) by {
                if piece@ == seq!['.', '.'] {
                    assert(piece@[0] == '.' && piece@[1] == '.');
                }
                if is_parent {
                    assert(piece@ =~= seq!['.', '.']);
                }
            }
        }
        last_is_name = !is_parent;
        last = Some(piece.clone());
    }
    if count == 0 || !last_is_name {
        (count, None)
    } else {
        (count, last)
    }
}

/// Checks a file name as the last component of a local path: it must be
/// a non-empty name other than `.` and `..`, and free of `/`, `\` and NUL.
pub fn safe_file_name(name: Option<&str>) -> (r: Result<String, AppError>)
    ensures
        match name {
            None => r matches Err(AppError::File(m)) && m@ == "invalid file name"@,
            Some(n) => if n@.len() == 0 || n@ == "."@ || n@ == ".."@ {
                r matches Err(AppError::File(m)) && m@ == "invalid file name"@
            } else if has_char(n@, '/') || has_char(n@, '\\') || has_char(n@, '\0') {
                r matches Err(AppError::File(m)) && m@ == "unsafe file name"@
            } else {
                r matches Ok(s) && s@ == n@
            },
        },
{
    let n = match name {
        Some(n) => n,
        None => return Err(AppError::File(String::from_str("invalid file name"))),
    };
    let chars = chars_of(n);
    proof {
        reveal_strlit(".");
        reveal_strlit("..");
    }
    let is_dot = chars.len() == 1 && chars[0] == '.';
    let is_parent = chars.len() == 2 && chars[0] == '.' && chars[1] == '.';
    if chars.len() == 0 || is_dot || is_parent {
        proof {
            if is_dot {
                assert(n@ =~= "."@);
            }
            if is_parent {
                assert(n@ =~= ".."@);
            }
        }
        return Err(AppError::File(String::from_str("invalid file name")));
    }
    proof {
        assert(n@ != "."@) by {
            if n@ == "."@ {
                assert(n@.len() == 1 && n@[0] == '.');
            }
        }
        assert(n@ != ".."@) by {
            if n@ == ".."@ {
                assert(n@.len() == 2 && n@[0] == '.' && n@[1] == '.');
            }
        }
    }
    if find_char(&chars, '/') || find_char(&chars, '\\') || find_char(&chars, '\0') {
        return Err(AppError::File(String::from_str("unsafe file name")));
    }
    Ok(String::from_str(n))
}

/// Checks a received manifest: its file name must be one safe path
/// component, and its digest sixty-four hexadecimal digits.
pub fn validate_manifest(manifest: &FileManifest) -> (r: Result<(), AppError>)
    ensures
        r is Ok <==> is_safe_file_name(manifest.file_name@) && is_hex_digest(manifest.blake3@)
            && chunk_digests_ok(manifest.file_size, manifest.chunk_blake3@),
        !has_char(manifest.file_name@, '/') ==> {
            let n = manifest.file_name@;
            if n.len() == 0 {
                r matches Err(AppError::File(m)) && m@ == "unsafe file name in manifest"@
            } else if n == "."@ || n == ".."@ {
                r matches Err(AppError::File(m)) && m@ == "invalid file name"@
            } else if has_char(n, '\\') || has_char(n, '\0') {
                r matches Err(AppError::File(m)) && m@ == "unsafe file name"@
            } else if !is_hex_digest(manifest.blake3@) {
                r matches Err(AppError::File(m)) && m@ == "invalid BLAKE3 digest in manifest"@
            } else if !chunk_digests_ok(manifest.file_size, manifest.chunk_blake3@) {
                r matches Err(AppError::File(m)) && m@ == "invalid chunk digests in manifest"@
            } else {
                r is Ok
            }
        },
        has_char(manifest.file_name@, '/') ==> (r matches Err(e) && e is File),
{
    let chars = chars_of(manifest.file_name.as_str());
    proof {
        reveal_strlit(".");
        reveal_strlit("..");
    }
    if find_char(&chars, '/') {
        let (count, last) = path_shape(&chars);
        if count != 1 {
            return Err(AppError::File(String::from_str("unsafe file name in manifest")));
        }
        let last_name = match last {
            Some(l) => l,
            None => return Err(AppError::File(String::from_str("invalid file name"))),
        };
        if find_char(&last_name, '\\') || find_char(&last_name, '\0') {
            return Err(AppError::File(String::from_str("unsafe file name")));
        }
        return Err(AppError::File(String::from_str("unsafe file name in manifest")));
    }
    if chars.len() == 0 {
        return Err(AppError::File(String::from_str("unsafe file name in manifest")));
    }
    let name = safe_file_name(Some(manifest.file_name.as_str()))?;
    check_digest(manifest.blake3.as_str())?;
    check_chunk_digests(manifest.file_size, &manifest.chunk_blake3)
}

/// Checks a digest: sixty-four hexadecimal digits.
fn check_digest(digest: &str) -> (r: Result<(), AppError>)
    ensures
        r is Ok <==> is_hex_digest(digest@),
        r matches Err(e) ==> e matches AppError::File(m) && m@ == "invalid BLAKE3 digest in manifest"@,
{
    let chars = chars_of(digest);
    if chars.len() != 64 {
        return Err(AppError::File(String::from_str("invalid BLAKE3 digest in manifest")));
    }
    let mut i: usize = 0;
    while i < chars.len()
        invariant
            i <= chars@.len(),
            chars@ == digest@,
            forall|j: int| 0 <= j < i ==> is_ascii_hexdigit(#[trigger] chars@[j]),
        decreases chars@.len() - i,
    {
        let c = chars[i];
        let hex = ('0' <= c && c <= '9') || ('a' <= c && c <= 'f') || ('A' <= c && c <= 'F');
        if !hex {
            return Err(AppError::File(String::from_str("invalid BLAKE3 digest in manifest")));
        }
        i = i + 1;
    }
    Ok(())
}

/// The position of the last `.` in `s`, or -1 when there is none.
pub open spec fn last_dot(s: Seq<char>) -> int
    decreases s.len(),
{
    if s.len() == 0 {
        -1
    } else if s.last() == '.' {
        s.len() - 1
    } else {
        last_dot(s.drop_last())
    }
}

/// A file name's stem: the part before its last `.`, or the whole name
/// when it has no `.` or only a leading one.
pub open spec fn file_stem(name: Seq<char>) -> Seq<char> {
    if last_dot(name) <= 0 {
        name
    } else {
        name.subrange(0, last_dot(name))
    }
}

/// A file name's extension: the part after its last `.`, when that `.` is
/// not the first character.
pub open spec fn file_extension(name: Seq<char>) -> Option<Seq<char>> {
    if last_dot(name) <= 0 {
        None
    } else {
        Some(name.subrange(last_dot(name) + 1, name.len() as int))
    }
}

/// The `n`-th alternative to a taken name: `stem (n).ext`, or `stem (n)`.
pub open spec fn candidate_name(name: Seq<char>, n: nat) -> Seq<char> {
    match file_extension(name) {
        Some(ext) => file_stem(name) + " ("@ + decimal(n) + ")."@ + ext,
        None => file_stem(name) + " ("@ + decimal(n) + ")"@,
    }
}

proof fn lemma_last_dot_bounds(s: Seq<char>)
    ensures
        -1 <= last_dot(s) < s.len(),
        last_dot(s) >= 0 ==> s[last_dot(s)] == '.',
        forall|i: int| last_dot(s) < i < s.len() ==> s[i] != '.',
    decreases s.len(),
{
    if s.len() > 0 && s.last() != '.' {
        lemma_last_dot_bounds(s.drop_last());
        assert forall|i: int| last_dot(s) < i < s.len() implies s[i] != '.' by {
            if i < s.len() - 1 {
                assert(s.drop_last()[i] == s[i]);
            }
        }
    }
}

fn find_last_dot(chars: &Vec<char>) -> (r: Option<usize>)
    ensures
        match r {
            Some(i) => i as int == last_dot(chars@) && i < chars@.len(),
            None => last_dot(chars@) == -1,
        },
{
    let mut i: usize = chars.len();
    assert(chars@.subrange(0, i as int) =~= chars@);
    while i > 0
        invariant
            i <= chars@.len(),
            last_dot(chars@) == last_dot(chars@.subrange(0, i as int)),
        decreases i,
    {
        let prefix = Ghost(chars@.subrange(0, i as int));
        if chars[i - 1] == '.' {
            assert(prefix@.last() == '.');
            return Some(i - 1);
        }
        assert(prefix@.drop_last() =~= chars@.subrange(0, i - 1));
        i = i - 1;
    }
    None
}

fn sub_chars(chars: &Vec<char>, from: usize, to: usize) -> (s: String)
    requires
        from <= to <= chars@.len(),
    ensures
        s@ == chars@.subrange(from as int, to as int),
{
    let mut v: Vec<char> = Vec::new();
    let mut i = from;
    while i < to
        invariant
            from <= i <= to,
            to <= chars@.len(),
            v@ == chars@.subrange(from as int, i as int),
        decreases to - i,
    {
        v.push(chars[i]);
        i = i + 1;
        assert(v@ =~= chars@.subrange(from as int, i as int));
    }
    string_from_chars(v.as_slice())
}

/// The name `stem (n).ext` (or `stem (n)` without an extension) tried when
/// `name` is taken in the receive directory.
#[verifier::spinoff_prover]
pub fn destination_candidate(name: &str, n: u32) -> (candidate: String)
    ensures
        candidate@ == candidate_name(name@, n as nat),
{
    let chars = chars_of(name);
    let number = u64_to_decimal(n as u64);
    proof {
        lemma_last_dot_bounds(chars@);
        reveal_strlit(" (");
        reveal_strlit(").");
        reveal_strlit(")");
    }
    let len = chars.len();
    match find_last_dot(&chars) {
        Some(dot) if dot > 0 => {
            assert(dot < len);
            let stem = sub_chars(&chars, 0, dot);
            let ext = sub_chars(&chars, dot + 1, len);
            let head = concat3(stem.as_str(), " (", number.as_str());
            concat3(head.as_str(), ").", ext.as_str())
        },
        _ => {
            let head = concat3(name, " (", number.as_str());
            concat2(head.as_str(), ")")
        },
    }
}

/// `is_taken` answered that the `n`-th alternative to `name` is taken.
pub open spec fn found_taken<F: Fn(&str) -> bool>(is_taken: F, name: Seq<char>, n: nat) -> bool {
    exists|s: &str| s@ == candidate_name(name, n) && #[trigger] is_taken.ensures((s,), true)
}

/// Where an incoming file lands: under its own name when that is free or
/// already holds the same content, else under the first free alternative
/// `stem (n).ext` for n from 2 to 9999. `is_taken` tells whether a name is
/// taken in the receive directory.
pub fn choose_destination<F: Fn(&str) -> bool>(
    name: &str,
    desired_taken: bool,
    desired_holds_same_content: bool,
    is_taken: F,
) -> (r: Result<String, AppError>)
    requires
        forall|s: &str| is_taken.requires((s,)),
    ensures
        !desired_taken || desired_holds_same_content ==> (r matches Ok(d) && d@ == name@),
        desired_taken && !desired_holds_same_content ==> match r {
            Ok(d) => exists|n: u32| {
                &&& 2 <= n < 10000
                &&& d@ == candidate_name(name@, n as nat)
                &&& exists|s: &str| s@ == d@ && is_taken.ensures((s,), false)
                &&& forall|k: u32| 2 <= k < n ==> #[trigger] found_taken(is_taken, name@, k as nat)
            },
            Err(e) => {
                &&& e matches AppError::File(m) && m@ == "unable to choose a non-conflicting destination name"@
                &&& forall|k: u32| 2 <= k < 10000 ==> #[trigger] found_taken(is_taken, name@, k as nat)
            },
        },
{
    if !desired_taken || desired_holds_same_content {
        return Ok(String::from_str(name));
    }
    let mut n: u32 = 2;
    while n < 10000
        invariant
            2 <= n <= 10000,
            desired_taken && !desired_holds_same_content,
            forall|s: &str| is_taken.requires((s,)),
            forall|k: u32| 2 <= k < n ==> #[trigger] found_taken(is_taken, name@, k as nat),
        decreases 10000 - n,
    {
        let candidate = destination_candidate(name, n);
        let tried = candidate.as_str();
        let taken = is_taken(tried);
        if !taken {
            return Ok(candidate);
        }
        assert forall|k: u32| 2 <= k < n + 1 implies #[trigger] found_taken(is_taken, name@, k as nat) by {
            if k == n {
                assert(tried@ == candidate_name(name@, k as nat));
            }
        }
        n = n + 1;
    }
    Err(AppError::File(String::from_str("unable to choose a non-conflicting destination name")))
}

/// The name of the partial file an incoming transfer writes to.
pub open spec fn partial_name(id: Seq<u8>) -> Seq<char> {
    ".synchalo-"@ + hyphenated(id) + ".part"@
}

/// The name of the partial file an incoming transfer writes to.
pub fn partial_file_name(id: &Uuid) -> (name: String)
    ensures
        name@ == partial_name(id.bytes@),
{
    let hyphenated = id.to_hyphenated();
    concat3(".synchalo-", hyphenated.as_str(), ".part")
}

/// Where chunk `i` of a file of `file_size` bytes ends.
pub open spec fn chunk_end(file_size: nat, i: nat) -> nat {
    if (i + 1) * TRANSFER_CHUNK_BYTES < file_size {
        ((i + 1) * TRANSFER_CHUNK_BYTES) as nat
    } else {
        file_size
    }
}

/// `n` chunks of `TRANSFER_CHUNK_BYTES` bytes, the last one possibly
/// shorter, make up exactly `file_size` bytes.
pub open spec fn chunks_cover(n: nat, file_size: nat) -> bool {
    &&& n * TRANSFER_CHUNK_BYTES >= file_size
    &&& n == 0 || (n - 1) * TRANSFER_CHUNK_BYTES < file_size
}

/// The per-chunk digests of a manifest are well formed: none at all, or one
/// digest of sixty-four hexadecimal digits for each chunk of the file.
pub open spec fn chunk_digests_ok(file_size: u64, digests: Seq<String>) -> bool {
    digests.len() == 0 || (chunks_cover(digests.len(), file_size as nat) && forall|i: int|
        0 <= i < digests.len() ==> is_hex_digest(#[trigger] digests[i]@))
}

/// Checks the per-chunk digests of a manifest.
fn check_chunk_digests(file_size: u64, digests: &Vec<String>) -> (r: Result<(), AppError>)
    ensures
        r is Ok <==> chunk_digests_ok(file_size, digests@),
        r matches Err(e) ==> e matches AppError::File(m) && m@ == "invalid chunk digests in manifest"@,
{
    let n = digests.len();
    if n == 0 {
        return Ok(());
    }
    let total: u128 = n as u128 * TRANSFER_CHUNK_BYTES as u128;
    let before_last: u128 = (n as u128 - 1) * TRANSFER_CHUNK_BYTES as u128;
    if total < file_size as u128 || before_last >= file_size as u128 {
        return Err(AppError::File(String::from_str("invalid chunk digests in manifest")));
    }
    let mut i: usize = 0;
    while i < n
        invariant
            i <= n,
            n == digests@.len(),
            forall|j: int| 0 <= j < i ==> is_hex_digest(#[trigger] digests@[j]@),
        decreases n - i,
    {
        if check_digest(digests[i].as_str()).is_err() {
            return Err(AppError::File(String::from_str("invalid chunk digests in manifest")));
        }
        i = i + 1;
    }
    Ok(())
}

/// The leading chunks, from chunk `i` on, that the partial file holds whole
/// and whose digest there is the announced one: the first chunk index where
/// that stops.
pub open spec fn matching_chunks(
    file_size: nat,
    existing: nat,
    partial: Seq<Seq<char>>,
    expected: Seq<Seq<char>>,
    i: nat,
) -> nat
    decreases partial.len() - i,
{
    if i < partial.len() && i < expected.len() && partial[i as int] == expected[i as int] && chunk_end(
        file_size,
        i,
    ) <= existing {
        matching_chunks(file_size, existing, partial, expected, i + 1)
    } else {
        i
    }
}

/// The verified prefix of a partial file: the bytes of its leading chunks
/// that are whole and carry the announced digest.
pub open spec fn verified_prefix(
    file_size: nat,
    existing: nat,
    partial: Seq<Seq<char>>,
    expected: Seq<Seq<char>>,
) -> nat {
    let n = matching_chunks(file_size, existing, partial, expected, 0);
    if n == 0 {
        0
    } else {
        chunk_end(file_size, (n - 1) as nat)
    }
}

/// Chunk `k` is whole in the partial file and its digest there is the
/// announced one.
pub open spec fn chunk_matches(
    file_size: nat,
    existing: nat,
    partial: Seq<Seq<char>>,
    expected: Seq<Seq<char>>,
    k: int,
) -> bool {
    &&& 0 <= k < expected.len()
    &&& k < partial.len()
    &&& partial[k] == expected[k]
    &&& chunk_end(file_size, k as nat) <= existing
}

/// Every chunk from `i` up to where the matching stops is whole in the
/// partial file and carries the announced digest.
#[verifier::spinoff_prover]
proof fn lemma_matching_chunks(
    file_size: nat,
    existing: nat,
    partial: Seq<Seq<char>>,
    expected: Seq<Seq<char>>,
    i: nat,
)
    ensures
        i <= matching_chunks(file_size, existing, partial, expected, i),
        i <= partial.len() ==> matching_chunks(file_size, existing, partial, expected, i) <= partial.len(),
        forall|k: int|
            i <= k < matching_chunks(file_size, existing, partial, expected, i) ==> #[trigger] chunk_matches(
                file_size,
                existing,
                partial,
                expected,
                k,
            ),
    decreases partial.len() - i,
{
    let m = matching_chunks(file_size, existing, partial, expected, i);
    let step = i < partial.len() && i < expected.len() && partial[i as int] == expected[i as int]
        && chunk_end(file_size, i) <= existing;
    if step {
        lemma_matching_chunks(file_size, existing, partial, expected, i + 1);
        assert(m == matching_chunks(file_size, existing, partial, expected, i + 1));
    } else {
        assert(m == i);
    }
    assert forall|k: int| i <= k < m implies #[trigger] chunk_matches(file_size, existing, partial, expected, k) by {
        assert(step);
        if k > i {
            assert(i + 1 <= k < matching_chunks(file_size, existing, partial, expected, i + 1));
        } else {
            assert(k == i);
        }
    }
}

/// The digests of a list of strings, as text.
pub open spec fn digest_texts(digests: Seq<String>) -> Seq<Seq<char>> {
    digests.map_values(|d: String| d@)
}

/// Where an interrupted transfer resumes, given the length of the partial
/// file and the digests of the chunks it holds whole, in order: a partial
/// file longer than the file is discarded (`true`) and the transfer starts
/// over; with per-chunk digests in the manifest it resumes after the
/// verified prefix, the leading whole chunks whose digest is the announced
/// one (the partial file is cut back to it); a manifest without them leaves
/// the whole partial file to the whole-file digest checked at the end.
pub fn resume_offset(manifest: &FileManifest, existing_partial: u64, partial_chunk_digests: &Vec<String>) -> (r: (
    u64,
    bool,
))
    ensures
        r.1 == (existing_partial > manifest.file_size),
        r.0 == (if existing_partial > manifest.file_size {
            0
        } else if manifest.chunk_blake3@.len() == 0 {
            existing_partial as nat
        } else {
            verified_prefix(
                manifest.file_size as nat,
                existing_partial as nat,
                digest_texts(partial_chunk_digests@),
                digest_texts(manifest.chunk_blake3@),
            )
        }),
        r.0 <= existing_partial,
        !r.1 && manifest.chunk_blake3@.len() > 0 ==> forall|k: int|
            0 <= k < matching_chunks(
                manifest.file_size as nat,
                existing_partial as nat,
                digest_texts(partial_chunk_digests@),
                digest_texts(manifest.chunk_blake3@),
                0,
            ) ==> #[trigger] partial_chunk_digests@[k]@ == manifest.chunk_blake3@[k]@,
{
    if existing_partial > manifest.file_size {
        return (0, true);
    }
    if manifest.chunk_blake3.len() == 0 {
        return (existing_partial, false);
    }
    let ghost size = manifest.file_size as nat;
    let ghost existing = existing_partial as nat;
    let ghost partial = digest_texts(partial_chunk_digests@);
    let ghost expected = digest_texts(manifest.chunk_blake3@);
    let mut i: usize = 0;
    let mut end: u64 = 0;
    loop
        invariant
            i <= partial_chunk_digests@.len(),
            matching_chunks(size, existing, partial, expected, 0) == matching_chunks(
                size,
                existing,
                partial,
                expected,
                i as nat,
            ),
            i == 0 ==> end == 0,
            i > 0 ==> end == chunk_end(size, (i - 1) as nat),
            end <= existing_partial,
            size == manifest.file_size,
            existing == existing_partial,
            partial == digest_texts(partial_chunk_digests@),
            expected == digest_texts(manifest.chunk_blake3@),
        ensures
            matching_chunks(size, existing, partial, expected, 0) == i,
            i == 0 ==> end == 0,
            i > 0 ==> end == chunk_end(size, (i - 1) as nat),
            end <= existing_partial,
        decreases partial_chunk_digests@.len() - i,
    {
        if i >= partial_chunk_digests.len() || i >= manifest.chunk_blake3.len() {
            break;
        }
        let chunk_stop: u128 = (i as u128 + 1) * TRANSFER_CHUNK_BYTES as u128;
        let this_end: u64 = if chunk_stop < manifest.file_size as u128 {
            chunk_stop as u64
        } else {
            manifest.file_size
        };
        if partial_chunk_digests[i] != manifest.chunk_blake3[i] || this_end > existing_partial {
            break;
        }
        end = this_end;
        i = i + 1;
    }
    proof {
        lemma_matching_chunks(size, existing, partial, expected, 0);
        assert forall|k: int| 0 <= k < matching_chunks(size, existing, partial, expected, 0) implies
            #[trigger] partial_chunk_digests@[k]@ == manifest.chunk_blake3@[k]@ by {
            assert(chunk_matches(size, existing, partial, expected, k));
        }
    }
    (end, false)
}

/// A chunk received from `start` on is a whole chunk of the file and
/// carries the digest the manifest announced for it.
pub open spec fn received_chunk_ok(file_size: u64, digests: Seq<String>, start: u64, bytes: Seq<u8>) -> bool {
    let i = start / (TRANSFER_CHUNK_BYTES as u64);
    &&& start % (TRANSFER_CHUNK_BYTES as u64) == 0
    &&& i < digests.len()
    &&& start + bytes.len() == chunk_end(file_size as nat, i as nat)
    &&& hex_of(blake3_digest(bytes)) == digests[i as int]@
}

/// Checks a chunk as it arrives: with per-chunk digests in the manifest,
/// the bytes received from `start` on must be a whole chunk of the file with
/// the announced digest; a manifest without them leaves the check to the
/// whole-file digest at the end.
pub fn check_received_chunk(manifest: &FileManifest, start: u64, chunk: &[u8]) -> (r: Result<(), AppError>)
    ensures
        manifest.chunk_blake3@.len() == 0 ==> r is Ok,
        manifest.chunk_blake3@.len() > 0 ==> (r is Ok <==> received_chunk_ok(
            manifest.file_size,
            manifest.chunk_blake3@,
            start,
            chunk@,
        )),
        r matches Err(e) ==> e matches AppError::File(m) && m@ == "received chunk does not match the manifest"@,
{
    if manifest.chunk_blake3.len() == 0 {
        return Ok(());
    }
    let size: u64 = TRANSFER_CHUNK_BYTES as u64;
    let index: u64 = start / size;
    if start % size != 0 || index >= manifest.chunk_blake3.len() as u64 {
        return Err(AppError::File(String::from_str("received chunk does not match the manifest")));
    }
    let stop: u128 = (index as u128 + 1) * size as u128;
    let end: u128 = if stop < manifest.file_size as u128 {
        stop
    } else {
        manifest.file_size as u128
    };
    if start as u128 + chunk.len() as u128 != end {
        return Err(AppError::File(String::from_str("received chunk does not match the manifest")));
    }
    let digest = content_hash(chunk);
    if digest != manifest.chunk_blake3[index as usize] {
        return Err(AppError::File(String::from_str("received chunk does not match the manifest")));
    }
    Ok(())
}

/// The free space an incoming file needs: what is left to receive, plus the
/// safety margin (saturating).
pub open spec fn space_required(file_size: u64, offset: u64) -> u64 {
    let remaining = if offset > file_size { 0 } else { file_size - offset };
    if remaining + DISK_SAFETY_MARGIN_BYTES > u64::MAX {
        u64::MAX
    } else {
        (remaining + DISK_SAFETY_MARGIN_BYTES) as u64
    }
}

/// Refuses an incoming file the disk cannot hold with the safety margin to
/// spare.
pub fn check_free_space(file_size: u64, offset: u64, available: u64) -> (r: Result<(), AppError>)
    ensures
        available >= space_required(file_size, offset) ==> r is Ok,
        available < space_required(file_size, offset) ==> r == Err::<(), AppError>(
            AppError::DiskFull { required: space_required(file_size, offset), available },
        ),
{
    let remaining = file_size.saturating_sub(offset);
    let required = remaining.saturating_add(DISK_SAFETY_MARGIN_BYTES);
    if available < required {
        return Err(AppError::DiskFull { required, available });
    }
    Ok(())
}

/// The error a digest mismatch reports.
pub open spec fn hash_mismatch_text(expected: Seq<char>, actual: Seq<char>) -> Seq<char> {
    "file hash mismatch: expected "@ + expected + ", got "@ + actual
}

/// Accepts copied or received content only when its digest is the one the
/// manifest announced.
pub fn check_content_hash(expected: &str, actual: &str) -> (r: Result<(), AppError>)
    ensures
        actual@ == expected@ ==> r is Ok,
        actual@ != expected@ ==> (r matches Err(AppError::File(m)) && m@ == hash_mismatch_text(
            expected@,
            actual@,
        )),
{
    let a = String::from_str(actual);
    let e = String::from_str(expected);
    if a == e {
        return Ok(());
    }
    let head = concat3("file hash mismatch: expected ", expected, ", got ");
    Err(AppError::File(concat2(head.as_str(), actual)))
}

/// Accepts a received file only when it has the announced size and digest.
pub fn check_received_file(manifest: &FileManifest, received_len: u64, actual_hash: &str) -> (r: Result<
    (),
    AppError,
>)
    ensures
        r is Ok <==> received_len == manifest.file_size && actual_hash@ == manifest.blake3@,
        received_len != manifest.file_size ==> (r matches Err(AppError::File(m)) && m@
            == "received "@ + decimal(received_len as nat) + " bytes but expected "@ + decimal(
            manifest.file_size as nat,
        )),
        received_len == manifest.file_size && actual_hash@ != manifest.blake3@ ==> (r matches Err(
            AppError::File(m),
        ) && m@ == hash_mismatch_text(manifest.blake3@, actual_hash@)),
{
    if received_len != manifest.file_size {
        let got = u64_to_decimal(received_len);
        let want = u64_to_decimal(manifest.file_size);
        let head = concat3("received ", got.as_str(), " bytes but expected ");
        return Err(AppError::File(concat2(head.as_str(), want.as_str())));
    }
    check_content_hash(manifest.blake3.as_str(), actual_hash)
}

/// How many bytes the next chunk of a transfer asks for.
pub fn next_chunk_len(file_size: u64, transferred: u64) -> (n: usize)
    requires
        transferred < file_size,
    ensures
        n as int == (if file_size - transferred < TRANSFER_CHUNK_BYTES {
            file_size - transferred
        } else {
            TRANSFER_CHUNK_BYTES as int
        }),
        0 < n <= TRANSFER_CHUNK_BYTES,
{
    let remaining = file_size - transferred;
    if remaining < TRANSFER_CHUNK_BYTES as u64 {
        remaining as usize
    } else {
        TRANSFER_CHUNK_BYTES
    }
}

/// Counts a chunk read during a transfer: a read of nothing before the
/// announced size fails with `ended`.
pub fn advance_transfer(file_size: u64, transferred: u64, read: usize, ended: &str) -> (r: Result<u64, AppError>)
    requires
        transferred < file_size,
        read as int <= file_size - transferred,
    ensures
        read == 0 ==> (r matches Err(AppError::File(m)) && m@ == ended@),
        read > 0 ==> r == Ok::<u64, AppError>((transferred + read) as u64),
{
    if read == 0 {
        return Err(AppError::File(String::from_str(ended)));
    }
    Ok(transferred + read as u64)
}

/// A modification time: seconds and nanoseconds relative to the Unix epoch.
#[derive(Debug, Clone, Copy, PartialEq, Eq, Structural)]
pub struct FileTime {
    pub seconds: i64,
    pub nanos: u32,
}

/// What identifies a source file's content between two looks at it: its
/// size and, when the system reports it, its modification time.
#[derive(Debug, Clone, Copy)]
pub struct SourceFingerprint {
    pub file_size: u64,
    pub modified: Option<FileTime>,
}

impl SourceFingerprint {
    /// Whether a second look finds the file unchanged.
    pub fn still_matches(&self, current: &SourceFingerprint) -> (b: bool)
        ensures
            b == (self.file_size == current.file_size && self.modified == current.modified),
    {
        let same_time = match (self.modified, current.modified) {
            (Some(a), Some(b)) => a.seconds == b.seconds && a.nanos == b.nanos,
            (None, None) => true,
            _ => false,
        };
        self.file_size == current.file_size && same_time
    }
}

/// Where an incoming file is written and where it ends up, from where it
/// resumes, and whether it is already there.
#[derive(Debug, Clone)]
pub struct IncomingTarget {
    pub temp_path: String,
    pub final_path: String,
    pub resume_offset: u64,
    pub already_complete: bool,
}

/// The target of an incoming file that is already in place: nothing is
/// written, and the sender is told it may skip to the end.
pub fn complete_target(final_path: String, file_size: u64) -> (t: IncomingTarget)
    ensures
        t.temp_path@ == final_path@,
        t.final_path == final_path,
        t.resume_offset == file_size,
        t.already_complete,
{
    IncomingTarget {
        temp_path: String::from_str(final_path.as_str()),
        final_path,
        resume_offset: file_size,
        already_complete: true,
    }
}

/// Whether a file already at its own name in the receive directory is the
/// announced one, so that nothing needs to be received.
pub fn already_received(final_is_desired: bool, final_exists: bool, final_hash: Option<&str>, manifest: &FileManifest) -> (b: bool)
    ensures
        b == (final_is_desired && final_exists && (final_hash matches Some(h) && h@ == manifest.blake3@)),
{
    if !final_is_desired || !final_exists {
        return false;
    }
    match final_hash {
        Some(h) => {
            let a = String::from_str(h);
            let e = String::from_str(manifest.blake3.as_str());
            a == e
        },
        None => false,
    }
}

} // verus!
