//! One-time pairing codes: generation, expiry, single use and the limit on
//! guessing attempts.
//!
//! Time enters as two clocks read by the caller: `now_ms`, a monotonic clock
//! that decides expiry and rate limiting, and `wall_ms`, Unix milliseconds
//! that only label the code's expiry for display.

use vstd::prelude::*;
use crate::error::AppError;
use crate::model::PairingCodeView;
use crate::text::{push_char, chars_of, is_ascii_digit};
use subtle::ConstantTimeEq;
use crate::primitives::fill_random;

verus! {

/// Attempts allowed within one window.
pub const MAX_ATTEMPTS_PER_MINUTE: usize = 8;

/// Length of the rate-limiting window, in milliseconds.
pub const ATTEMPT_WINDOW_MS: u64 = 60_000;

/// Number of digits in a pairing code.
pub const CODE_DIGITS: usize = 6;

/// The code that is currently offered.
#[derive(Debug, Clone)]
pub struct ActiveCode {
    code: Vec<u8>,
    expires_ms: u64,
    expires_at_ms: i64,
}

/// The abstract state of a pairing code manager.
pub struct PairingModel {
    /// The offered code (its ASCII digits), the monotonic instant it
    /// expires at, and its expiry as Unix milliseconds.
    pub active: Option<(Seq<u8>, u64, i64)>,
    /// Monotonic instants of the attempts that still count, oldest first.
    pub attempts: Seq<u64>,
}

/// Issues pairing codes and checks guesses against them.
pub struct PairingCodeManager {
    active: Option<ActiveCode>,
    attempts: Vec<u64>,
}

pub open spec fn sat_sub(a: u64, b: u64) -> u64 {
    if a >= b { (a - b) as u64 } else { 0 }
}

/// The attempts that still count at `now`: older ones are dropped from the
/// front while at least a window has passed since them.
pub open spec fn pruned(attempts: Seq<u64>, now: u64) -> Seq<u64>
    decreases attempts.len(),
{
    if attempts.len() > 0 && sat_sub(now, attempts[0]) >= ATTEMPT_WINDOW_MS {
        pruned(attempts.drop_first(), now)
    } else {
        attempts
    }
}

/// Whether one more attempt at `now` exceeds the limit.
pub open spec fn attempt_refused(attempts: Seq<u64>, now: u64) -> bool {
    pruned(attempts, now).len() >= MAX_ATTEMPTS_PER_MINUTE
}

/// The attempt log after an attempt at `now`.
pub open spec fn attempts_after(attempts: Seq<u64>, now: u64) -> Seq<u64> {
    if attempt_refused(attempts, now) {
        pruned(attempts, now)
    } else {
        pruned(attempts, now).push(now)
    }
}

/// The offered code, dropped if it has expired by `now`.
pub open spec fn live(active: Option<(Seq<u8>, u64, i64)>, now: u64) -> Option<(Seq<u8>, u64, i64)> {
    match active {
        Some(a) => if now >= a.1 { None } else { Some(a) },
        None => None,
    }
}

/// The digit characters of a code, as bytes.
pub open spec fn ascii_bytes(s: Seq<char>) -> Seq<u8> {
    s.map_values(|c: char| c as u8)
}

/// The ASCII digits of a typed code, in order.
pub open spec fn normalized_code(candidate: Seq<char>) -> Seq<u8> {
    ascii_bytes(candidate.filter(|c: char| is_ascii_digit(c)))
}

/// Whether a guess matches the code offered at `now`.
pub open spec fn guess_matches(active: Option<(Seq<u8>, u64, i64)>, candidate: Seq<char>, now: u64) -> bool {
    match live(active, now) {
        Some(a) => normalized_code(candidate).len() == CODE_DIGITS && normalized_code(candidate)
            == a.0,
        None => false,
    }
}

/// The six ASCII digits of `value` (zero-padded).
pub open spec fn six_digits(value: nat) -> Seq<u8> {
    seq![
        (48 + (value / 100000) % 10) as u8,
        (48 + (value / 10000) % 10) as u8,
        (48 + (value / 1000) % 10) as u8,
        (48 + (value / 100) % 10) as u8,
        (48 + (value / 10) % 10) as u8,
        (48 + value % 10) as u8,
    ]
}

/// A code as displayed: three digits, a space, three digits.
pub open spec fn displayed(code: Seq<u8>) -> Seq<char> {
    seq![code[0] as char, code[1] as char, code[2] as char, ' ', code[3] as char, code[4] as char, code[5] as char]
}

/// A well-formed offered code: six ASCII digits.
pub open spec fn is_code(code: Seq<u8>) -> bool {
    code.len() == CODE_DIGITS && forall|i: int| 0 <= i < code.len() ==> 48 <= #[trigger] code[i] <= 57
}

/// Whether two byte strings are equal, compared in constant time
/// (`subtle::ConstantTimeEq::ct_eq` on slices: the lengths are compared
/// first, then every byte).
#[verifier::external_body]
pub(crate) fn bytes_equal_ct(a: &[u8], b: &[u8]) -> (equal: bool)
    ensures
        equal == (a@ == b@),
{
    bool::from(a.ct_eq(b))
}

/// Records an attempt at `now`, or refuses it when the window is full.
fn record_attempt(attempts: &mut Vec<u64>, now: u64) -> (r: Result<(), AppError>)
    requires
        old(attempts)@.len() <= MAX_ATTEMPTS_PER_MINUTE,
    ensures
        final(attempts)@.len() <= MAX_ATTEMPTS_PER_MINUTE,
        r is Ok <==> !attempt_refused(old(attempts)@, now),
        final(attempts)@ == attempts_after(old(attempts)@, now),
        r matches Err(e) ==> e is Network,
{
    while attempts.len() > 0 && now.saturating_sub(attempts[0]) >= ATTEMPT_WINDOW_MS
        invariant
            pruned(attempts@, now) == pruned(old(attempts)@, now),
        decreases attempts@.len(),
    {
        attempts.remove(0);
    }
    proof {
        lemma_pruned_shrinks(old(attempts)@, now);
    }
    if attempts.len() >= MAX_ATTEMPTS_PER_MINUTE {
        return Err(AppError::Network(String::from_str("too many pairing attempts; try again later")));
    }
    attempts.push(now);
    Ok(())
}

fn digit_byte(d: u32) -> (b: u8)
    requires
        d < 10,
    ensures
        b == 48 + d,
{
    (48 + d) as u8
}

fn code_from_value(value: u32) -> (code: Vec<u8>)
    requires
        value < 1_000_000,
    ensures
        code@ == six_digits(value as nat),
        is_code(code@),
{
    let mut code: Vec<u8> = Vec::new();
    code.push(digit_byte((value / 100000) % 10));
    code.push(digit_byte((value / 10000) % 10));
    code.push(digit_byte((value / 1000) % 10));
    code.push(digit_byte((value / 100) % 10));
    code.push(digit_byte((value / 10) % 10));
    code.push(digit_byte(value % 10));
    assert(code@ =~= six_digits(value as nat));
    code
}

fn display_code(code: &Vec<u8>) -> (s: String)
    requires
        is_code(code@),
    ensures
        s@ == displayed(code@),
{
    let mut s = String::new();
    push_char(&mut s, code[0] as char);
    push_char(&mut s, code[1] as char);
    push_char(&mut s, code[2] as char);
    push_char(&mut s, ' ');
    push_char(&mut s, code[3] as char);
    push_char(&mut s, code[4] as char);
    push_char(&mut s, code[5] as char);
    assert(s@ =~= displayed(code@));
    s
}

/// The ASCII digits of `candidate` as bytes.
fn normalize(candidate: &str) -> (digits: Vec<u8>)
    ensures
        digits@ == normalized_code(candidate@),
{
    let chars = chars_of(candidate);
    let mut out: Vec<u8> = Vec::new();
    let mut i: usize = 0;
    while i < chars.len()
        invariant
            i <= chars@.len(),
            chars@ == candidate@,
            out@ == normalized_code(chars@.subrange(0, i as int)),
        decreases chars@.len() - i,
    {
        let c = chars[i];
        proof {
            let pre = chars@.subrange(0, i as int);
            assert(chars@.subrange(0, i + 1) =~= pre.push(c));
            pre.lemma_filter_push(c, |c: char| is_ascii_digit(c));
            let f = pre.filter(|c: char| is_ascii_digit(c));
            assert(ascii_bytes(f.push(c)) =~= ascii_bytes(f).push(c as u8));
        }
        if '0' <= c && c <= '9' {
            out.push(c as u8);
        }
        i = i + 1;
    }
    assert(chars@.subrange(0, chars@.len() as int) =~= chars@);
    out
}

impl PairingCodeManager {
    pub closed spec fn model(&self) -> PairingModel {
        PairingModel {
            active: match self.active {
                Some(a) => Some((a.code@, a.expires_ms, a.expires_at_ms)),
                None => None,
            },
            attempts: self.attempts@,
        }
    }

    /// Every offered code is six ASCII digits, and no more attempts are kept
    /// than the limit allows.
    pub closed spec fn wf(&self) -> bool {
        &&& self.attempts@.len() <= MAX_ATTEMPTS_PER_MINUTE
        &&& match self.active {
            Some(a) => is_code(a.code@),
            None => true,
        }
    }

    /// A manager that offers no code and has seen no attempt.
    pub fn new() -> (m: Self)
        ensures
            m.wf(),
            m.model().active is None,
            m.model().attempts.len() == 0,
    {
        PairingCodeManager { active: None, attempts: Vec::new() }
    }

    /// Offers the code `random % 1_000_000` (six digits, zero-padded) for
    /// `ttl_ms` milliseconds, replacing any code offered before.
    pub fn generate_from(&mut self, random: u32, ttl_ms: u64, now_ms: u64, wall_ms: i64) -> (view:
        PairingCodeView)
        requires
            old(self).wf(),
            now_ms + ttl_ms <= u64::MAX,
            ttl_ms <= i64::MAX,
            wall_ms + ttl_ms <= i64::MAX,
        ensures
            final(self).wf(),
            final(self).model().active == Some(
                (six_digits((random % 1_000_000) as nat), (now_ms + ttl_ms) as u64, (wall_ms + ttl_ms) as i64),
            ),
            final(self).model().attempts == old(self).model().attempts,
            view.code@ == displayed(six_digits((random % 1_000_000) as nat)),
            view.expires_at_ms == wall_ms + ttl_ms,
    {
        let code = code_from_value(random % 1_000_000);
        let shown = display_code(&code);
        let expires_at_ms = wall_ms + ttl_ms as i64;
        self.active = Some(ActiveCode { code, expires_ms: now_ms + ttl_ms, expires_at_ms });
        PairingCodeView { code: shown, expires_at_ms }
    }

    /// Offers a fresh random six-digit code for `ttl_ms` milliseconds.
    /// Fails only when the operating system has no random bytes to give.
    pub fn generate(&mut self, ttl_ms: u64, now_ms: u64, wall_ms: i64) -> (r: Result<PairingCodeView, AppError>)
        requires
            old(self).wf(),
            now_ms + ttl_ms <= u64::MAX,
            ttl_ms <= i64::MAX,
            wall_ms + ttl_ms <= i64::MAX,
        ensures
            final(self).wf(),
            final(self).model().attempts == old(self).model().attempts,
            r matches Ok(view) ==> exists|value: nat|
                value < 1_000_000 && final(self).model().active == Some(
                    (six_digits(value), (now_ms + ttl_ms) as u64, (wall_ms + ttl_ms) as i64),
                ) && view.code@ == displayed(six_digits(value)) && view.expires_at_ms == wall_ms
                    + ttl_ms,
            r is Err ==> final(self).model() == old(self).model(),
            r matches Err(e) ==> e is Internal,
    {
        let mut random: Vec<u8> = vec![0u8, 0u8, 0u8, 0u8];
        match fill_random(&mut random) {
            Ok(()) => {},
            Err(message) => return Err(AppError::Internal(message)),
        }
        let value: u32 = random[0] as u32 + 256 * (random[1] as u32) + 65536 * (random[2] as u32)
            + 16777216 * (random[3] as u32 % 128) + if random[3] >= 128 { 2147483648u32 } else { 0 };
        let view = self.generate_from(value, ttl_ms, now_ms, wall_ms);
        assert((value % 1_000_000) < 1_000_000);
        Ok(view)
    }

    /// The code on offer at `now_ms`, as displayed; an expired code is dropped.
    pub fn current(&mut self, now_ms: u64) -> (view: Option<PairingCodeView>)
        requires
            old(self).wf(),
        ensures
            final(self).wf(),
            final(self).model().active == live(old(self).model().active, now_ms),
            final(self).model().attempts == old(self).model().attempts,
            match live(old(self).model().active, now_ms) {
                Some(a) => view matches Some(v) && v.code@ == displayed(a.0) && v.expires_at_ms == a.2,
                None => view is None,
            },
    {
        let expired = match &self.active {
            Some(a) => now_ms >= a.expires_ms,
            None => false,
        };
        if expired {
            self.active = None;
        }
        match &self.active {
            Some(a) => Some(PairingCodeView { code: display_code(&a.code), expires_at_ms: a.expires_at_ms }),
            None => None,
        }
    }

    /// Checks a code typed by the user at `now_ms`: digits are kept, all
    /// else ignored. A match consumes the code. Every call counts as an
    /// attempt, and a call beyond the limit fails without checking.
    pub fn validate_and_consume(&mut self, candidate: &str, now_ms: u64) -> (r: Result<bool, AppError>)
        requires
            old(self).wf(),
        ensures
            final(self).wf(),
            final(self).model().attempts == attempts_after(old(self).model().attempts, now_ms),
            r is Err <==> attempt_refused(old(self).model().attempts, now_ms),
            r matches Err(e) ==> e is Network,
            r is Err ==> final(self).model().active == old(self).model().active,
            r matches Ok(accepted) ==> {
                &&& accepted == guess_matches(old(self).model().active, candidate@, now_ms)
                &&& final(self).model().active == if accepted {
                    None
                } else {
                    live(old(self).model().active, now_ms)
                }
            },
    {
        record_attempt(&mut self.attempts, now_ms)?;
        let (code, expires_ms) = match &self.active {
            Some(a) => (a.code.clone(), a.expires_ms),
            None => return Ok(false),
        };
        if now_ms >= expires_ms {
            self.active = None;
            return Ok(false);
        }
        let normalized = normalize(candidate);
        let matches = normalized.len() == CODE_DIGITS && bytes_equal_ct(code.as_slice(), normalized.as_slice());
        if matches {
            self.active = None;
        }
        Ok(matches)
    }

    /// Withdraws the code on offer.
    pub fn invalidate(&mut self)
        requires
            old(self).wf(),
        ensures
            final(self).wf(),
            final(self).model().active is None,
            final(self).model().attempts == old(self).model().attempts,
    {
        self.active = None;
    }

    /// Starts a pairing attempt that arrived over the network at `now_ms`:
    /// counts it and returns the code on offer (its digits), if any.
    pub fn begin_network_attempt(&mut self, now_ms: u64) -> (r: Result<Option<String>, AppError>)
        requires
            old(self).wf(),
        ensures
            final(self).wf(),
            final(self).model().attempts == attempts_after(old(self).model().attempts, now_ms),
            r is Err <==> attempt_refused(old(self).model().attempts, now_ms),
            r matches Err(e) ==> e is Network,
            r is Err ==> final(self).model().active == old(self).model().active,
            r is Ok ==> final(self).model().active == live(old(self).model().active, now_ms),
            r matches Ok(code) ==> match live(old(self).model().active, now_ms) {
                Some(a) => code matches Some(c) && ascii_bytes(c@) == a.0,
                None => code is None,
            },
    {
        record_attempt(&mut self.attempts, now_ms)?;
        let expired = match &self.active {
            Some(a) => now_ms >= a.expires_ms,
            None => false,
        };
        if expired {
            self.active = None;
        }
        match &self.active {
            Some(a) => {
                let mut s = String::new();
                let mut i: usize = 0;
                while i < a.code.len()
                    invariant
                        i <= a.code@.len(),
                        ascii_bytes(s@) == a.code@.subrange(0, i as int),
                        is_code(a.code@),
                    decreases a.code@.len() - i,
                {
                    let ghost before = s@;
                    push_char(&mut s, a.code[i] as char);
                    assert(ascii_bytes(s@) =~= a.code@.subrange(0, i + 1)) by {
                        assert(s@ == before.push(a.code@[i as int] as char));
                        assert(ascii_bytes(before.push(a.code@[i as int] as char)) =~= ascii_bytes(before).push(
                            a.code@[i as int],
                        ));
                    }
                    i = i + 1;
                }
                assert(a.code@.subrange(0, a.code@.len() as int) =~= a.code@);
                Ok(Some(s))
            },
            None => Ok(None),
        }
    }

    /// Consumes the code on offer if it is `expected` (digits as bytes) and
    /// has not expired at `now_ms`; reports whether it did.
    pub fn consume_active_code(&mut self, expected: &[u8], now_ms: u64) -> (consumed: bool)
        requires
            old(self).wf(),
        ensures
            final(self).wf(),
            final(self).model().attempts == old(self).model().attempts,
            consumed == match old(self).model().active {
                Some(a) => a.0 == expected@ && now_ms < a.1,
                None => false,
            },
            final(self).model().active == if consumed {
                None
            } else {
                old(self).model().active
            },
    {
        let matches = match &self.active {
            Some(a) => bytes_equal_ct(a.code.as_slice(), expected) && now_ms < a.expires_ms,
            None => false,
        };
        if matches {
            self.active = None;
        }
        matches
    }
}

/// A code is accepted at most once: once a guess has matched, no later
/// guess matches until a new code is generated.
pub proof fn lemma_code_single_use(
    active: Option<(Seq<u8>, u64, i64)>,
    first: Seq<char>,
    later: Seq<char>,
    now1: u64,
    now2: u64,
)
    requires
        guess_matches(active, first, now1),
    ensures
        !guess_matches(None, later, now2),
{
}

/// An expired code is never accepted, whatever is typed.
pub proof fn lemma_expired_code_rejected(code: Seq<u8>, expires_ms: u64, expires_at_ms: i64, candidate: Seq<char>, now: u64)
    requires
        now >= expires_ms,
    ensures
        !guess_matches(Some((code, expires_ms, expires_at_ms)), candidate, now),
{
}

/// Only the offered digits are accepted: an accepted guess, stripped of
/// everything but its digits, is exactly the code.
pub proof fn lemma_only_exact_code_accepted(active: Option<(Seq<u8>, u64, i64)>, candidate: Seq<char>, now: u64)
    requires
        guess_matches(active, candidate, now),
    ensures
        active is Some,
        normalized_code(candidate) == active.unwrap().0,
        now < active.unwrap().1,
{
}

/// The attempt log never holds more attempts than the limit, and an attempt
/// is refused exactly when the limit's worth of attempts lie within the window.
pub proof fn lemma_attempts_bounded(attempts: Seq<u64>, now: u64)
    requires
        attempts.len() <= MAX_ATTEMPTS_PER_MINUTE,
    ensures
        attempts_after(attempts, now).len() <= MAX_ATTEMPTS_PER_MINUTE,
        attempt_refused(attempts, now) ==> attempts_after(attempts, now).len() == MAX_ATTEMPTS_PER_MINUTE,
{
    lemma_pruned_shrinks(attempts, now);
}

/// Pruning only drops attempts.
pub proof fn lemma_pruned_shrinks(attempts: Seq<u64>, now: u64)
    ensures
        pruned(attempts, now).len() <= attempts.len(),
    decreases attempts.len(),
{
    if attempts.len() > 0 && sat_sub(now, attempts[0]) >= ATTEMPT_WINDOW_MS {
        lemma_pruned_shrinks(attempts.drop_first(), now);
    }
}

/// When a full window's worth of attempts has been made within the last
/// minute (none of them pruned), the next attempt is refused.
pub proof fn lemma_burst_refused(attempts: Seq<u64>, now: u64)
    requires
        attempts.len() >= MAX_ATTEMPTS_PER_MINUTE,
        forall|i: int| 0 <= i < attempts.len() ==> sat_sub(now, #[trigger] attempts[i]) < ATTEMPT_WINDOW_MS,
    ensures
        attempt_refused(attempts, now),
{
    assert(sat_sub(now, attempts[0]) < ATTEMPT_WINDOW_MS);
}

} // verus!
