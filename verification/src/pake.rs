//! The SPAKE2 key exchange of pairing: each side starts from the pairing
//! code and both device identifiers, sends one message, and derives the key
//! that the pairing proofs are made with.

use vstd::prelude::*;
use crate::error::AppError;
use crate::ids::Uuid;
use crate::text::ascii_digits;
use crate::transport::pairing_password;
use spake2::{Ed25519Group, Identity, Password, Spake2};
use vstd::string::StringSliceAdditionalSpecFns;

verus! {

/// The state `spake2` keeps for one side of an exchange under way, held
/// whole and opaque: `Spake2<Ed25519Group>` itself. Nothing is claimed of
/// its contents; what the exchange was started from is recorded beside it
/// in `PakeState`.
#[verifier::external_body]
struct PakeSession {
    spake: Spake2<Ed25519Group>,
}

#[verifier::external_type_specification]
#[verifier::external_body]
pub struct ExSpakeError(spake2::Error);

/// Length of a SPAKE2 message over Ed25519: the side byte and a 32-byte
/// group element.
pub const PAKE_MESSAGE_BYTES: usize = 33;

/// The side byte that opens the message of side A (the pairing client).
pub const PAKE_SIDE_A: u8 = 0x41;

/// The side byte that opens the message of side B (the device paired with).
pub const PAKE_SIDE_B: u8 = 0x42;

/// One side of a key exchange under way, with the password and identities
/// it was started from.
pub struct PakeState {
    session: PakeSession,
    password: Ghost<Seq<u8>>,
    id_a: Ghost<Seq<u8>>,
    id_b: Ghost<Seq<u8>>,
    client: bool,
}

impl PakeState {
    /// The password bytes the exchange was started from.
    pub closed spec fn password(&self) -> Seq<u8> {
        self.password@
    }

    /// The identity of side A, the pairing client.
    pub closed spec fn id_a(&self) -> Seq<u8> {
        self.id_a@
    }

    /// The identity of side B, the device paired with.
    pub closed spec fn id_b(&self) -> Seq<u8> {
        self.id_b@
    }

    /// Whether this is side A.
    pub closed spec fn is_client(&self) -> bool {
        self.client
    }
}

/// `Spake2::<Ed25519Group>::start_a`: side A's state and its message, which
/// the source builds as the byte `A` followed by a 32-byte group element.
/// The element is drawn from the operating system's random source, so
/// nothing more is said of it.
#[verifier::external_body]
fn spake2_start_a(password: &[u8], id_a: &[u8], id_b: &[u8]) -> (r: (PakeSession, Vec<u8>))
    ensures
        r.1@.len() == PAKE_MESSAGE_BYTES,
        r.1@[0] == PAKE_SIDE_A,
{
    let (spake, message) = Spake2::<Ed25519Group>::start_a(
        &Password::new(password),
        &Identity::new(id_a),
        &Identity::new(id_b),
    );
    (PakeSession { spake }, message)
}

/// `Spake2::<Ed25519Group>::start_b`: side B's state and its message, the
/// byte `B` followed by a random 32-byte group element.
#[verifier::external_body]
fn spake2_start_b(password: &[u8], id_a: &[u8], id_b: &[u8]) -> (r: (PakeSession, Vec<u8>))
    ensures
        r.1@.len() == PAKE_MESSAGE_BYTES,
        r.1@[0] == PAKE_SIDE_B,
{
    let (spake, message) = Spake2::<Ed25519Group>::start_b(
        &Password::new(password),
        &Identity::new(id_a),
        &Identity::new(id_b),
    );
    (PakeSession { spake }, message)
}

/// `Spake2::finish`: the key, a SHA-256 digest of 32 bytes, or an error.
/// The source refuses a message whose length is not 33 bytes before
/// anything else; whether another message is refused (wrong side byte, not
/// a group element) rests on the state, which is opaque here.
#[verifier::external_body]
fn spake2_finish(state: PakeSession, inbound: &[u8]) -> (r: Result<Vec<u8>, spake2::Error>)
    ensures
        inbound@.len() != PAKE_MESSAGE_BYTES ==> r is Err,
        r matches Ok(key) ==> key@.len() == 32,
{
    state.spake.finish(inbound)
}

/// The password bytes the pairing client uses for a typed code: the UTF-8
/// of its six digits.
pub open spec fn client_password(code: Seq<char>) -> Seq<u8> {
    vstd::utf8::encode_utf8(ascii_digits(code))
}

/// A code typed with separators starts the client from the same password
/// as the device that offers the code, whenever its digits are that code.
pub proof fn lemma_typed_code_matches_offered(typed: Seq<char>, offered: &str)
    requires
        ascii_digits(typed) == offered@,
    ensures
        client_password(typed) == offered.spec_bytes(),
{
}

/// Starts the key exchange as the pairing client (side A), from the code
/// the user typed, this device's identifier and the peer's.
pub fn client_pairing_start(code: &str, own: &Uuid, peer: &Uuid) -> (r: Result<(PakeState, Vec<u8>), AppError>)
    ensures
        r is Ok <==> ascii_digits(code@).len() == 6,
        r matches Ok((state, message)) ==> {
            &&& state.password() == client_password(code@)
            &&& state.id_a() == own.bytes@
            &&& state.id_b() == peer.bytes@
            &&& state.is_client()
            &&& message@.len() == PAKE_MESSAGE_BYTES
            &&& message@[0] == PAKE_SIDE_A
        },
        r matches Err(e) ==> e matches AppError::InvalidInput(m) && m@
            == "pairing code must contain six digits"@,
{
    let password = pairing_password(code)?;
    let bytes = password.as_str().as_bytes();
    let (session, message) = spake2_start_a(bytes, own.bytes.as_slice(), peer.bytes.as_slice());
    let state = PakeState {
        session,
        password: Ghost(bytes@),
        id_a: Ghost(own.bytes@),
        id_b: Ghost(peer.bytes@),
        client: true,
    };
    Ok((state, message))
}

/// Starts the key exchange as the device paired with (side B), from the
/// code it offers, the client's identifier and its own.
pub fn server_pairing_start(code: &str, client: &Uuid, own: &Uuid) -> (r: (PakeState, Vec<u8>))
    ensures
        r.0.password() == code.spec_bytes(),
        r.0.id_a() == client.bytes@,
        r.0.id_b() == own.bytes@,
        !r.0.is_client(),
        r.1@.len() == PAKE_MESSAGE_BYTES,
        r.1@[0] == PAKE_SIDE_B,
{
    let bytes = code.as_bytes();
    let (session, message) = spake2_start_b(bytes, client.bytes.as_slice(), own.bytes.as_slice());
    let state = PakeState {
        session,
        password: Ghost(bytes@),
        id_a: Ghost(client.bytes@),
        id_b: Ghost(own.bytes@),
        client: false,
    };
    (state, message)
}

/// The side byte that opens the message a side expects from the other one.
pub open spec fn expected_side(client: bool) -> u8 {
    if client {
        PAKE_SIDE_B
    } else {
        PAKE_SIDE_A
    }
}

/// Finishes the key exchange with the other side's message: the 32-byte key
/// the pairing proofs are made with, or the error that the key agreement
/// failed. A message of the wrong length, or one that does not come from
/// the other side (its side byte), always fails.
pub fn pairing_shared_key(state: PakeState, inbound: &[u8]) -> (r: Result<Vec<u8>, AppError>)
    ensures
        inbound@.len() != PAKE_MESSAGE_BYTES ==> r is Err,
        inbound@.len() == PAKE_MESSAGE_BYTES && inbound@[0] != expected_side(state.is_client()) ==> r is Err,
        r matches Ok(key) ==> key@.len() == 32,
        r matches Err(e) ==> e matches AppError::Network(m) && m@ == "pairing key agreement failed"@,
{
    let side = if state.client {
        PAKE_SIDE_B
    } else {
        PAKE_SIDE_A
    };
    if inbound.len() != PAKE_MESSAGE_BYTES || inbound[0] != side {
        return Err(AppError::Network(String::from_str("pairing key agreement failed")));
    }
    match spake2_finish(state.session, inbound) {
        Ok(key) => Ok(key),
        Err(_) => Err(AppError::Network(String::from_str("pairing key agreement failed"))),
    }
}

} // verus!
