//! The wire protocol between trusted devices: frames, device credentials,
//! pairing proofs, the signed handshake of trusted connections and the
//! checks on clipboard messages.

use vstd::prelude::*;
use crate::error::{AppError, fails_network, fails_input};
use crate::ids::Uuid;
use crate::model::{ClipboardEvent, DevicePlatform};
use crate::primitives::{
    content_hash, content_hash_of, ed25519_key_is_valid, ed25519_public, ed25519_public_key,
    ed25519_sign, ed25519_signature, ed25519_signature_is_valid, ed25519_valid_key, ed25519_verify,
    fill_random, hmac_sha256, hmac_sha256_tag, self_signed_certificate,
};
use crate::text::{concat2, ascii_digits, keep_ascii_digits};
use vstd::string::StringSliceAdditionalSpecFns;

verus! {

/// Version of the protocol spoken on the wire.
pub const PROTOCOL_VERSION: u16 = 2;

/// Largest clipboard text synchronized, in bytes.
pub const MAX_CLIPBOARD_BYTES: usize = 1048576;

/// Largest frame payload, in bytes.
pub const MAX_WIRE_FRAME_BYTES: usize = 2097152;

/// Largest certificate accepted from a pairing device, in bytes.
pub const MAX_CERTIFICATE_BYTES: usize = 65536;

/// Name every device's certificate is issued for.
pub const SERVER_NAME: &'static str = "synchalo.local";

/// Domain label of the message a connecting device signs.
pub const AUTH_CLIENT_LABEL: &'static str = "synchalo-client-auth-v1";

/// Domain label of the message an accepting device signs.
pub const AUTH_SERVER_LABEL: &'static str = "synchalo-server-auth-v1";

/// Length of the random nonces of the trusted handshake.
pub const AUTH_NONCE_BYTES: usize = 32;

/// The network error for a peer that broke the protocol.
pub open spec fn protocol_error_text(message: Seq<char>) -> Seq<char> {
    "protocol error: "@ + message
}

pub fn protocol_error(message: &str) -> (e: AppError)
    ensures
        e matches AppError::Network(m) && m@ == protocol_error_text(message@),
{
    AppError::Network(concat2("protocol error: ", message))
}

/// Four bytes, big-endian, of `n < 2^32`.
pub open spec fn be32(n: nat) -> Seq<u8> {
    seq![((n / 16777216) % 256) as u8, ((n / 65536) % 256) as u8, ((n / 256) % 256) as u8, (n % 256) as u8]
}

/// The number four big-endian bytes stand for.
pub open spec fn be32_value(b: Seq<u8>) -> nat {
    (b[0] as nat) * 16777216 + (b[1] as nat) * 65536 + (b[2] as nat) * 256 + (b[3] as nat)
}

/// A frame: the payload's length as four big-endian bytes, then the payload.
pub open spec fn frame_of(payload: Seq<u8>) -> Seq<u8> {
    be32(payload.len()) + payload
}

/// Frames `payload` for the wire; refuses a payload over the frame limit.
pub fn encode_frame(payload: &[u8]) -> (r: Result<Vec<u8>, AppError>)
    ensures
        r is Ok <==> payload@.len() <= MAX_WIRE_FRAME_BYTES,
        r matches Ok(frame) ==> frame@ == frame_of(payload@),
        r matches Err(e) ==> e matches AppError::Network(m) && m@ == protocol_error_text(
            "wire frame is too large"@,
        ),
{
    if payload.len() > MAX_WIRE_FRAME_BYTES {
        return Err(protocol_error("wire frame is too large"));
    }
    let n = payload.len() as u32;
    let mut frame: Vec<u8> = Vec::new();
    frame.push(((n / 16777216) % 256) as u8);
    frame.push(((n / 65536) % 256) as u8);
    frame.push(((n / 256) % 256) as u8);
    frame.push((n % 256) as u8);
    let mut i: usize = 0;
    while i < payload.len()
        invariant
            i <= payload@.len(),
            payload@.len() <= MAX_WIRE_FRAME_BYTES,
            n == payload@.len(),
            frame@ == be32(n as nat) + payload@.subrange(0, i as int),
        decreases payload@.len() - i,
    {
        frame.push(payload[i]);
        i = i + 1;
        assert(frame@ =~= be32(n as nat) + payload@.subrange(0, i as int));
    }
    assert(payload@.subrange(0, payload@.len() as int) =~= payload@);
    Ok(frame)
}

/// Reads a frame header: the payload length, which must be positive and
/// within the frame limit.
pub fn decode_frame_length(header: &[u8]) -> (r: Result<usize, AppError>)
    requires
        header@.len() == 4,
    ensures
        r is Ok <==> 0 < be32_value(header@) <= MAX_WIRE_FRAME_BYTES,
        r matches Ok(n) ==> n == be32_value(header@),
        r matches Err(e) ==> e matches AppError::Network(m) && m@ == protocol_error_text(
            "wire frame length is invalid"@,
        ),
{
    let n: u64 = (header[0] as u64) * 16777216 + (header[1] as u64) * 65536 + (header[2] as u64)
        * 256 + (header[3] as u64);
    if n == 0 || n > MAX_WIRE_FRAME_BYTES as u64 {
        return Err(protocol_error("wire frame length is invalid"));
    }
    Ok(n as usize)
}

/// A frame's header gives back the length of the payload it was made from,
/// and the payload follows it.
pub proof fn lemma_frame_round_trip(payload: Seq<u8>)
    requires
        0 < payload.len() <= MAX_WIRE_FRAME_BYTES,
    ensures
        be32_value(frame_of(payload).subrange(0, 4)) == payload.len(),
        frame_of(payload).subrange(4, frame_of(payload).len() as int) == payload,
{
    let n = payload.len();
    let f = frame_of(payload);
    assert(f.subrange(0, 4) =~= be32(n));
    assert(f.subrange(4, f.len() as int) =~= payload);
    assert((n / 16777216) % 256 == n / 16777216) by (nonlinear_arith)
        requires
            n <= 2097152,
    ;
    assert((n / 16777216) * 16777216 + ((n / 65536) % 256) * 65536 + ((n / 256) % 256) * 256 + n
        % 256 == n) by (nonlinear_arith)
        requires
            n <= 2097152,
    ;
}

/// The long-term secrets of this device: its TLS certificate and private
/// key, and its Ed25519 signing key.
#[derive(Debug, Clone)]
pub struct TransportCredentials {
    pub certificate_der: Vec<u8>,
    pub private_key_der: Vec<u8>,
    pub signing_key: [u8; 32],
}

/// A 32-byte array with the bytes of `v`.
pub fn array32(v: &[u8]) -> (a: [u8; 32])
    requires
        v@.len() == 32,
    ensures
        a@ == v@,
{
    let mut a = [0u8; 32];
    let mut i: usize = 0;
    while i < 32
        invariant
            i <= 32,
            v@.len() == 32,
            forall|j: int| 0 <= j < i ==> a@[j] == v@[j],
        decreases 32 - i,
    {
        a[i] = v[i];
        i = i + 1;
    }
    assert(a@ =~= v@);
    a
}

impl TransportCredentials {
    /// Fresh credentials: a self-signed certificate for `SERVER_NAME` and a
    /// random signing key.
    pub fn generate() -> (r: Result<Self, AppError>)
        ensures
            r matches Err(e) ==> e is Network,
    {
        let (certificate_der, private_key_der) = match self_signed_certificate(SERVER_NAME) {
            Ok(pair) => pair,
            Err(message) => return Err(AppError::Network(message)),
        };
        let mut key: Vec<u8> = Vec::new();
        let mut i: usize = 0;
        while i < 32
            invariant
                i <= 32,
                key@.len() == i,
            decreases 32 - i,
        {
            key.push(0u8);
            i = i + 1;
        }
        match fill_random(&mut key) {
            Ok(()) => {},
            Err(message) => return Err(AppError::Network(message)),
        }
        let signing_key = array32(key.as_slice());
        Ok(TransportCredentials { certificate_der, private_key_der, signing_key })
    }

    /// The public key other devices verify this device's signatures with.
    pub fn verifying_key(&self) -> (key: [u8; 32])
        ensures
            key@ == ed25519_public_key(self.signing_key@),
            ed25519_key_is_valid(key@),
    {
        ed25519_public(&self.signing_key)
    }

    /// The certificate's content hash, which identifies it to people.
    pub fn certificate_fingerprint(&self) -> (fingerprint: String)
        ensures
            fingerprint@ == content_hash_of(self.certificate_der@),
    {
        content_hash(self.certificate_der.as_slice())
    }

    /// This device's signature of `message`.
    pub fn sign(&self, message: &[u8]) -> (sig: Vec<u8>)
        ensures
            sig@ == ed25519_signature(self.signing_key@, message@),
            sig@.len() == 64,
            ed25519_signature_is_valid(ed25519_public_key(self.signing_key@), message@, sig@),
    {
        ed25519_sign(&self.signing_key, message)
    }
}

/// Who this device is on the network.
#[derive(Debug, Clone)]
pub struct TransportIdentity {
    pub device_id: Uuid,
    pub device_name: String,
    pub platform: DevicePlatform,
    pub space_id: Uuid,
    pub credentials: TransportCredentials,
}

/// A device this one trusts: its identity, sync space, pinned certificate
/// and signature key.
#[derive(Debug, Clone)]
pub struct TrustedPeer {
    pub device_id: Uuid,
    pub device_name: String,
    pub platform: DevicePlatform,
    pub space_id: Uuid,
    pub certificate_der: Vec<u8>,
    pub verifying_key: [u8; 32],
}

/// A device asking to pair, shown to the user for approval.
#[derive(Debug, Clone)]
pub struct PairingCandidate {
    pub request_id: Uuid,
    pub device_id: Uuid,
    pub device_name: String,
    pub platform: DevicePlatform,
}

/// How a device describes itself while pairing.
#[derive(Debug, Clone)]
pub struct WireDevice {
    pub device_id: Uuid,
    pub device_name: String,
    pub platform: DevicePlatform,
    pub space_id: Uuid,
    pub protocol_version: u16,
    pub certificate_der: Vec<u8>,
    pub verifying_key: [u8; 32],
}

impl WireDevice {
    /// This device's self-description.
    pub fn from_identity(identity: &TransportIdentity) -> (w: WireDevice)
        ensures
            w.device_id == identity.device_id,
            w.device_name@ == identity.device_name@,
            w.platform == identity.platform,
            w.space_id == identity.space_id,
            w.protocol_version == PROTOCOL_VERSION,
            w.certificate_der@ == identity.credentials.certificate_der@,
            w.verifying_key@ == ed25519_public_key(identity.credentials.signing_key@),
    {
        WireDevice {
            device_id: identity.device_id,
            device_name: String::from_str(identity.device_name.as_str()),
            platform: identity.platform,
            space_id: identity.space_id,
            protocol_version: PROTOCOL_VERSION,
            certificate_der: identity.credentials.certificate_der.clone(),
            verifying_key: identity.credentials.verifying_key(),
        }
    }

    /// The peer this description makes trusted, once it is checked: same
    /// protocol version, a certificate of at most 64 KiB, a usable key.
    pub fn into_trusted_peer(self) -> (r: Result<TrustedPeer, AppError>)
        ensures
            r is Ok <==> (self.protocol_version == PROTOCOL_VERSION && self.certificate_der@.len()
                <= MAX_CERTIFICATE_BYTES && ed25519_key_is_valid(self.verifying_key@)),
            r matches Ok(p) ==> p.device_id == self.device_id && p.device_name@
                == self.device_name@ && p.platform == self.platform && p.space_id == self.space_id
                && p.certificate_der@ == self.certificate_der@ && p.verifying_key == self.verifying_key,
            r matches Err(e) ==> e is Network,
            self.protocol_version == PROTOCOL_VERSION && self.certificate_der@.len() > MAX_CERTIFICATE_BYTES
                ==> fails_network(r, protocol_error_text("certificate is too large"@)),
            self.protocol_version == PROTOCOL_VERSION && self.certificate_der@.len() <= MAX_CERTIFICATE_BYTES
                && !ed25519_key_is_valid(self.verifying_key@) ==> fails_network(
                r,
                protocol_error_text("invalid device verification key"@),
            ),
    {
        if self.protocol_version != PROTOCOL_VERSION {
            let v = crate::text::u64_to_decimal(self.protocol_version as u64);
            let mut m = String::from_str("protocol version ");
            m.append(v.as_str());
            m.append(" is not supported");
            return Err(AppError::Network(m));
        }
        if self.certificate_der.len() > MAX_CERTIFICATE_BYTES {
            return Err(protocol_error("certificate is too large"));
        }
        if !ed25519_valid_key(&self.verifying_key) {
            return Err(protocol_error("invalid device verification key"));
        }
        Ok(TrustedPeer {
            device_id: self.device_id,
            device_name: self.device_name,
            platform: self.platform,
            space_id: self.space_id,
            certificate_der: self.certificate_der,
            verifying_key: self.verifying_key,
        })
    }
}

/// The password both sides of a pairing use: the six digits of the code.
pub fn pairing_password(code: &str) -> (r: Result<String, AppError>)
    ensures
        r is Ok <==> ascii_digits(code@).len() == 6,
        r matches Ok(p) ==> p@ == ascii_digits(code@),
        r matches Err(e) ==> e matches AppError::InvalidInput(m) && m@
            == "pairing code must contain six digits"@,
{
    let digits = keep_ascii_digits(code);
    if digits.unicode_len() != 6 {
        return Err(AppError::InvalidInput(String::from_str("pairing code must contain six digits")));
    }
    Ok(digits)
}

/// The proof a pairing side must send for its role and the transcript:
/// HMAC-SHA256 of the role and the transcript under the agreed key.
pub open spec fn expected_pairing_proof(shared_key: Seq<u8>, role: Seq<u8>, transcript: Seq<u8>) -> Seq<u8> {
    hmac_sha256(shared_key, role + transcript)
}

/// What checking a pairing proof answers: success exactly for the expected
/// proof, else the mismatch error.
pub open spec fn pairing_proof_checked(
    shared_key: Seq<u8>,
    role: Seq<u8>,
    transcript: Seq<u8>,
    proof: Seq<u8>,
    r: Result<(), AppError>,
) -> bool {
    &&& r is Ok <==> proof == expected_pairing_proof(shared_key, role, transcript)
    &&& r matches Err(e) ==> e matches AppError::Network(m) && m@ == "pairing proof did not match"@
}

/// The proof a pairing side sends: HMAC-SHA256 of its role and the
/// transcript under the key both sides agreed on.
pub fn pairing_proof(shared_key: &[u8], role: &[u8], transcript: &[u8]) -> (proof: Vec<u8>)
    ensures
        proof@ == expected_pairing_proof(shared_key@, role@, transcript@),
        proof@.len() == 32,
{
    let mut msg: Vec<u8> = Vec::new();
    append_bytes(&mut msg, role);
    append_bytes(&mut msg, transcript);
    assert(msg@ =~= role@ + transcript@);
    hmac_sha256_tag(shared_key, msg.as_slice())
}

/// Whether two byte strings are equal, compared in constant time.
fn same_bytes(a: &[u8], b: &[u8]) -> (equal: bool)
    ensures
        equal == (a@ == b@),
{
    let expected = crate::pairing::bytes_equal_ct(a, b);
    expected
}

/// Checks the other side's pairing proof.
pub fn verify_pairing_proof(shared_key: &[u8], role: &[u8], transcript: &[u8], proof: &[u8]) -> (r:
    Result<(), AppError>)
    ensures
        pairing_proof_checked(shared_key@, role@, transcript@, proof@, r),
{
    let expected = pairing_proof(shared_key, role, transcript);
    if same_bytes(expected.as_slice(), proof) {
        Ok(())
    } else {
        Err(AppError::Network(String::from_str("pairing proof did not match")))
    }
}

/// The proof one side computes with the agreed key is accepted by the other
/// side, holding the same key, role and transcript; any other proof is
/// refused.
pub proof fn lemma_pairing_proof_accepted(
    shared_key: Seq<u8>,
    role: Seq<u8>,
    transcript: Seq<u8>,
    proof: Seq<u8>,
    r: Result<(), AppError>,
)
    requires
        pairing_proof_checked(shared_key, role, transcript, proof, r),
    ensures
        proof == expected_pairing_proof(shared_key, role, transcript) ==> r is Ok,
        proof != expected_pairing_proof(shared_key, role, transcript) ==> r is Err,
{
}

/// The message signed in the trusted handshake: a domain label, the
/// connecting device, the accepting device, the sync space, then nonces.
pub open spec fn auth_message(label: Seq<u8>, client: Uuid, server: Uuid, space: Uuid, tail: Seq<u8>) -> Seq<u8> {
    label + client.bytes@ + server.bytes@ + space.bytes@ + tail
}

pub fn append_bytes(out: &mut Vec<u8>, bytes: &[u8])
    ensures
        final(out)@ == old(out)@ + bytes@,
{
    let mut i: usize = 0;
    let ghost start = out@;
    while i < bytes.len()
        invariant
            i <= bytes@.len(),
            out@ == start + bytes@.subrange(0, i as int),
        decreases bytes@.len() - i,
    {
        out.push(bytes[i]);
        i = i + 1;
        assert(out@ =~= start + bytes@.subrange(0, i as int));
    }
    assert(bytes@.subrange(0, bytes@.len() as int) =~= bytes@);
}

/// What the connecting device signs.
pub fn trusted_client_message(client_id: &Uuid, server_id: &Uuid, space_id: &Uuid, nonce: &[u8]) -> (m: Vec<u8>)
    ensures
        m@ == auth_message(AUTH_CLIENT_LABEL.spec_bytes(), *client_id, *server_id, *space_id, nonce@),
{
    let mut m: Vec<u8> = Vec::new();
    append_bytes(&mut m, AUTH_CLIENT_LABEL.as_bytes());
    append_bytes(&mut m, client_id.bytes.as_slice());
    append_bytes(&mut m, server_id.bytes.as_slice());
    append_bytes(&mut m, space_id.bytes.as_slice());
    append_bytes(&mut m, nonce);
    assert(m@ =~= auth_message(AUTH_CLIENT_LABEL.spec_bytes(), *client_id, *server_id, *space_id, nonce@));
    m
}

/// What the accepting device signs: both nonces, the connecting device's first.
pub fn trusted_server_message(
    client_id: &Uuid,
    server_id: &Uuid,
    space_id: &Uuid,
    client_nonce: &[u8],
    server_nonce: &[u8],
) -> (m: Vec<u8>)
    ensures
        m@ == auth_message(
            AUTH_SERVER_LABEL.spec_bytes(),
            *client_id,
            *server_id,
            *space_id,
            client_nonce@ + server_nonce@,
        ),
{
    let mut m: Vec<u8> = Vec::new();
    append_bytes(&mut m, AUTH_SERVER_LABEL.as_bytes());
    append_bytes(&mut m, client_id.bytes.as_slice());
    append_bytes(&mut m, server_id.bytes.as_slice());
    append_bytes(&mut m, space_id.bytes.as_slice());
    append_bytes(&mut m, client_nonce);
    append_bytes(&mut m, server_nonce);
    assert(m@ =~= auth_message(
        AUTH_SERVER_LABEL.spec_bytes(),
        *client_id,
        *server_id,
        *space_id,
        client_nonce@ + server_nonce@,
    ));
    m
}

/// Whether `sig` is a signature of `msg` under `key`, as `verify_signature` checks it.
pub open spec fn signature_accepted(key: Seq<u8>, msg: Seq<u8>, sig: Seq<u8>) -> bool {
    ed25519_key_is_valid(key) && sig.len() == 64 && ed25519_signature_is_valid(key, msg, sig)
}

/// Checks a device's signature of `message`.
pub fn verify_signature(key: &[u8; 32], message: &[u8], signature: &[u8]) -> (r: Result<(), AppError>)
    ensures
        r is Ok <==> signature_accepted(key@, message@, signature@),
        !ed25519_key_is_valid(key@) ==> fails_network(r, "invalid device verification key"@),
        ed25519_key_is_valid(key@) && signature@.len() != 64 ==> fails_network(
            r,
            "invalid device signature"@,
        ),
        ed25519_key_is_valid(key@) && signature@.len() == 64 && !signature_accepted(
            key@,
            message@,
            signature@,
        ) ==> fails_network(r, "device signature verification failed"@),
{
    if !ed25519_valid_key(key) {
        return Err(AppError::Network(String::from_str("invalid device verification key")));
    }
    if signature.len() != 64 {
        return Err(AppError::Network(String::from_str("invalid device signature")));
    }
    if !ed25519_verify(key, message, signature) {
        return Err(AppError::Network(String::from_str("device signature verification failed")));
    }
    Ok(())
}

/// The checks an accepting device makes of a trusted connection request:
/// a 32-byte nonce, a trusted device, the same sync space, and the device's
/// signature of the client message.
pub open spec fn trusted_request_accepted(
    peer: Option<TrustedPeer>,
    local: Uuid,
    local_space: Uuid,
    device_id: Uuid,
    nonce: Seq<u8>,
    signature: Seq<u8>,
) -> bool {
    &&& nonce.len() == AUTH_NONCE_BYTES
    &&& peer matches Some(p)
    &&& p.device_id == device_id
    &&& p.space_id == local_space
    &&& signature_accepted(
        p.verifying_key@,
        auth_message(AUTH_CLIENT_LABEL.spec_bytes(), device_id, local, local_space, nonce),
        signature,
    )
}

/// Authenticates a device that opens a trusted connection. `peer` is the
/// trusted record for `device_id`, if there is one.
pub fn authenticate_trusted_client(
    peer: Option<&TrustedPeer>,
    identity: &TransportIdentity,
    device_id: &Uuid,
    nonce: &[u8],
    signature: &[u8],
) -> (r: Result<(), AppError>)
    requires
        peer matches Some(p) ==> p.device_id == *device_id,
    ensures
        r is Ok <==> trusted_request_accepted(
            match peer { Some(p) => Some(*p), None => None },
            identity.device_id,
            identity.space_id,
            *device_id,
            nonce@,
            signature@,
        ),
        nonce@.len() != AUTH_NONCE_BYTES ==> fails_network(
            r,
            protocol_error_text("invalid authentication nonce"@),
        ),
        nonce@.len() == AUTH_NONCE_BYTES && peer is None ==> fails_network(
            r,
            "device is not trusted"@,
        ),
        nonce@.len() == AUTH_NONCE_BYTES && (peer matches Some(p) && p.space_id != identity.space_id)
            ==> r matches Err(AppError::SyncSpaceMismatch),
{
    if nonce.len() != AUTH_NONCE_BYTES {
        return Err(protocol_error("invalid authentication nonce"));
    }
    let p = match peer {
        Some(p) => p,
        None => return Err(AppError::Network(String::from_str("device is not trusted"))),
    };
    if !p.space_id.same(&identity.space_id) {
        return Err(AppError::SyncSpaceMismatch);
    }
    let message = trusted_client_message(&p.device_id, &identity.device_id, &identity.space_id, nonce);
    proof {
        assert(p.space_id.bytes@ == identity.space_id.bytes@);
        assert(p.space_id == identity.space_id);
    }
    verify_signature(&p.verifying_key, message.as_slice(), signature)
}

/// A trusted device whose request is signed with the secret key behind its
/// recorded verification key, for this device and sync space, is accepted.
pub proof fn lemma_signed_request_accepted(
    peer: TrustedPeer,
    secret: Seq<u8>,
    local: Uuid,
    local_space: Uuid,
    nonce: Seq<u8>,
    signature: Seq<u8>,
)
    requires
        peer.verifying_key@ == ed25519_public_key(secret),
        ed25519_key_is_valid(peer.verifying_key@),
        peer.space_id == local_space,
        nonce.len() == AUTH_NONCE_BYTES,
        signature.len() == 64,
        ed25519_signature_is_valid(
            ed25519_public_key(secret),
            auth_message(AUTH_CLIENT_LABEL.spec_bytes(), peer.device_id, local, local_space, nonce),
            signature,
        ),
    ensures
        trusted_request_accepted(Some(peer), local, local_space, peer.device_id, nonce, signature),
{
}

} // verus!
