//! The messages of the wire protocol and what each side accepts in reply:
//! the pairing exchange, the trusted handshake, clipboard messages and file
//! transfers.

use vstd::prelude::*;
use vstd::utf8::encode_utf8;
use crate::error::{fails_network, AppError};
use crate::ids::Uuid;
use crate::model::ClipboardEvent;
use crate::primitives::{content_hash, content_hash_of};
use crate::text::concat2;
use crate::transfer::FileManifest;
use crate::transport::{
    protocol_error, protocol_error_text, signature_accepted, verify_signature, TrustedPeer,
    WireDevice, MAX_CLIPBOARD_BYTES,
};

verus! {

/// A message of the wire protocol.
#[derive(Debug)]
pub enum WireFrame {
    PairStart { device: WireDevice, spake_message: Vec<u8> },
    PairChallenge { device: WireDevice, spake_message: Vec<u8> },
    PairProof { proof: Vec<u8> },
    PairAccepted { proof: Vec<u8> },
    TrustedStart { device_id: Uuid, nonce: Vec<u8>, signature: Vec<u8> },
    TrustedAccepted { nonce: Vec<u8>, signature: Vec<u8> },
    Clipboard { event: ClipboardEvent, signature: Vec<u8> },
    FileOffer { manifest: FileManifest },
    FileAccept { resume_offset: u64 },
    FileCompleted,
    FileFailed { message: String },
    Ack,
    Error { message: String },
}

/// What a connection opens with.
#[derive(Debug)]
pub enum IncomingHandshake {
    Pair { device: WireDevice, spake_message: Vec<u8> },
    Trusted { device_id: Uuid, nonce: Vec<u8>, signature: Vec<u8> },
}

/// The first message of a connection: a pairing start or a trusted start;
/// anything else is refused.
pub fn classify_handshake(frame: WireFrame) -> (r: Result<IncomingHandshake, AppError>)
    ensures
        match frame {
            WireFrame::PairStart { device, spake_message } => r matches Ok(IncomingHandshake::Pair { device: d, spake_message: s })
                && d == device && s == spake_message,
            WireFrame::TrustedStart { device_id, nonce, signature } => r matches Ok(
                IncomingHandshake::Trusted { device_id: i, nonce: n, signature: s },
            ) && i == device_id && n == nonce && s == signature,
            _ => fails_network(r, protocol_error_text("invalid handshake"@)),
        },
{
    match frame {
        WireFrame::PairStart { device, spake_message } => Ok(IncomingHandshake::Pair { device, spake_message }),
        WireFrame::TrustedStart { device_id, nonce, signature } => Ok(
            IncomingHandshake::Trusted { device_id, nonce, signature },
        ),
        _ => Err(protocol_error("invalid handshake")),
    }
}

/// The pairing challenge a device answers a pairing start with; it must
/// come from the device that was discovered.
pub fn expect_pair_challenge(frame: WireFrame, expected_device_id: &Uuid) -> (r: Result<
    (WireDevice, Vec<u8>),
    AppError,
>)
    ensures
        match frame {
            WireFrame::PairChallenge { device, spake_message } => if device.device_id == *expected_device_id {
                r matches Ok((d, s)) && d == device && s == spake_message
            } else {
                fails_network(r, protocol_error_text("discovered device identity changed"@))
            },
            WireFrame::Error { message } => fails_network(r, message@),
            _ => fails_network(r, protocol_error_text("expected pairing challenge"@)),
        },
{
    match frame {
        WireFrame::PairChallenge { device, spake_message } => {
            if !device.device_id.same(expected_device_id) {
                return Err(protocol_error("discovered device identity changed"));
            }
            Ok((device, spake_message))
        },
        WireFrame::Error { message } => Err(AppError::Network(message)),
        _ => Err(protocol_error("expected pairing challenge")),
    }
}

/// The client's pairing proof.
pub fn expect_pair_proof(frame: WireFrame) -> (r: Result<Vec<u8>, AppError>)
    ensures
        match frame {
            WireFrame::PairProof { proof } => r == Ok::<Vec<u8>, AppError>(proof),
            _ => fails_network(r, protocol_error_text("expected client pairing proof"@)),
        },
{
    match frame {
        WireFrame::PairProof { proof } => Ok(proof),
        _ => Err(protocol_error("expected client pairing proof")),
    }
}

/// The server's acceptance of a pairing, with its proof.
pub fn expect_pair_accepted(frame: WireFrame) -> (r: Result<Vec<u8>, AppError>)
    ensures
        match frame {
            WireFrame::PairAccepted { proof } => r == Ok::<Vec<u8>, AppError>(proof),
            WireFrame::Error { message } => fails_network(r, message@),
            _ => fails_network(r, protocol_error_text("expected pairing acceptance"@)),
        },
{
    match frame {
        WireFrame::PairAccepted { proof } => Ok(proof),
        WireFrame::Error { message } => Err(AppError::Network(message)),
        _ => Err(protocol_error("expected pairing acceptance")),
    }
}

/// The server's answer to a trusted start: its nonce and signature.
pub fn expect_trusted_accepted(frame: WireFrame) -> (r: Result<(Vec<u8>, Vec<u8>), AppError>)
    ensures
        match frame {
            WireFrame::TrustedAccepted { nonce, signature } => r matches Ok((n, s)) && n == nonce && s
                == signature,
            WireFrame::Error { message } => fails_network(r, message@),
            _ => fails_network(r, protocol_error_text("expected trusted handshake response"@)),
        },
{
    match frame {
        WireFrame::TrustedAccepted { nonce, signature } => Ok((nonce, signature)),
        WireFrame::Error { message } => Err(AppError::Network(message)),
        _ => Err(protocol_error("expected trusted handshake response")),
    }
}

/// The acknowledgement of an application message.
pub fn expect_ack(frame: WireFrame) -> (r: Result<(), AppError>)
    ensures
        match frame {
            WireFrame::Ack => r is Ok,
            WireFrame::Error { message } => fails_network(r, message@),
            _ => fails_network(r, protocol_error_text("expected acknowledgement"@)),
        },
{
    match frame {
        WireFrame::Ack => Ok(()),
        WireFrame::Error { message } => Err(AppError::Network(message)),
        _ => Err(protocol_error("expected acknowledgement")),
    }
}

/// The receiver's acceptance of a file offer: where to resume, which may
/// not lie beyond the file's end.
pub fn expect_file_accept(frame: WireFrame, file_size: u64) -> (r: Result<u64, AppError>)
    ensures
        match frame {
            WireFrame::FileAccept { resume_offset } => if resume_offset <= file_size {
                r == Ok::<u64, AppError>(resume_offset)
            } else {
                fails_network(r, protocol_error_text("expected file acceptance"@))
            },
            WireFrame::FileFailed { message } => r matches Err(AppError::File(m)) && m == message,
            _ => fails_network(r, protocol_error_text("expected file acceptance"@)),
        },
{
    match frame {
        WireFrame::FileAccept { resume_offset } => {
            if resume_offset <= file_size {
                Ok(resume_offset)
            } else {
                Err(protocol_error("expected file acceptance"))
            }
        },
        WireFrame::FileFailed { message } => Err(AppError::File(message)),
        _ => Err(protocol_error("expected file acceptance")),
    }
}

/// The receiver's verdict on a sent file.
pub fn expect_file_completion(frame: WireFrame) -> (r: Result<(), AppError>)
    ensures
        match frame {
            WireFrame::FileCompleted => r is Ok,
            WireFrame::FileFailed { message } => r matches Err(AppError::File(m)) && m == message,
            _ => fails_network(r, protocol_error_text("expected file completion"@)),
        },
{
    match frame {
        WireFrame::FileCompleted => Ok(()),
        WireFrame::FileFailed { message } => Err(AppError::File(message)),
        _ => Err(protocol_error("expected file completion")),
    }
}

/// What a trusted connection carries.
#[derive(Debug)]
pub enum ApplicationMessage {
    Clipboard { event: ClipboardEvent, signature: Vec<u8> },
    FileOffer { manifest: FileManifest },
}

/// A message on a trusted connection: a clipboard change or a file offer.
pub fn classify_application_message(frame: WireFrame) -> (r: Result<ApplicationMessage, AppError>)
    ensures
        match frame {
            WireFrame::Clipboard { event, signature } => r matches Ok(ApplicationMessage::Clipboard { event: e, signature: s })
                && e == event && s == signature,
            WireFrame::FileOffer { manifest } => r matches Ok(ApplicationMessage::FileOffer { manifest: m })
                && m == manifest,
            _ => fails_network(r, protocol_error_text("unsupported application message"@)),
        },
{
    match frame {
        WireFrame::Clipboard { event, signature } => Ok(ApplicationMessage::Clipboard { event, signature }),
        WireFrame::FileOffer { manifest } => Ok(ApplicationMessage::FileOffer { manifest }),
        _ => Err(protocol_error("unsupported application message")),
    }
}

/// A clipboard message is accepted when it comes from the device it names,
/// in this device's sync space, with 1 byte to 1 MiB of text whose content
/// hash it carries, from a device still trusted, signed by that device.
/// `signing_bytes` are the bytes the sender signs for the event.
pub open spec fn clipboard_accepted(
    event: ClipboardEvent,
    signature: Seq<u8>,
    signing_bytes: Seq<u8>,
    peer_id: Uuid,
    local_space: Uuid,
    peer: Option<TrustedPeer>,
) -> bool {
    &&& event.origin_device_id == peer_id
    &&& event.space_id == local_space
    &&& 0 < encode_utf8(event.content@).len() <= MAX_CLIPBOARD_BYTES
    &&& content_hash_of(encode_utf8(event.content@)) == event.content_hash@
    &&& peer matches Some(p)
    &&& signature_accepted(p.verifying_key@, signing_bytes, signature)
}

/// Checks a clipboard message received from `peer_id`; `peer` is that
/// device's trusted record, if it is still trusted.
pub fn check_clipboard_message(
    event: &ClipboardEvent,
    signature: &[u8],
    signing_bytes: &[u8],
    peer_id: &Uuid,
    local_space: &Uuid,
    peer: Option<&TrustedPeer>,
) -> (r: Result<(), AppError>)
    ensures
        r is Ok <==> clipboard_accepted(
            *event,
            signature@,
            signing_bytes@,
            *peer_id,
            *local_space,
            match peer {
                Some(p) => Some(*p),
                None => None,
            },
        ),
        event.origin_device_id != *peer_id ==> fails_network(
            r,
            protocol_error_text("clipboard origin does not match connection"@),
        ),
        event.origin_device_id == *peer_id && event.space_id != *local_space ==> fails_network(
            r,
            protocol_error_text("clipboard sync space does not match"@),
        ),
        event.origin_device_id == *peer_id && event.space_id == *local_space && !(0
            < encode_utf8(event.content@).len() <= MAX_CLIPBOARD_BYTES) ==> fails_network(
            r,
            protocol_error_text("clipboard payload size is invalid"@),
        ),
        event.origin_device_id == *peer_id && event.space_id == *local_space && 0
            < encode_utf8(event.content@).len() <= MAX_CLIPBOARD_BYTES && content_hash_of(
            encode_utf8(event.content@),
        ) != event.content_hash@ ==> fails_network(
            r,
            protocol_error_text("clipboard content hash mismatch"@),
        ),
        event.origin_device_id == *peer_id && event.space_id == *local_space && 0
            < encode_utf8(event.content@).len() <= MAX_CLIPBOARD_BYTES && content_hash_of(
            encode_utf8(event.content@),
        ) == event.content_hash@ && peer is None ==> fails_network(r, "device is no longer trusted"@),
{
    if !event.origin_device_id.same(peer_id) {
        return Err(protocol_error("clipboard origin does not match connection"));
    }
    if !event.space_id.same(local_space) {
        return Err(protocol_error("clipboard sync space does not match"));
    }
    let bytes = event.content.as_str().as_bytes();
    if bytes.len() == 0 || bytes.len() > MAX_CLIPBOARD_BYTES {
        return Err(protocol_error("clipboard payload size is invalid"));
    }
    let hash = content_hash(bytes);
    if hash != event.content_hash {
        return Err(protocol_error("clipboard content hash mismatch"));
    }
    let p = match peer {
        Some(p) => p,
        None => return Err(AppError::Network(String::from_str("device is no longer trusted"))),
    };
    verify_signature(&p.verifying_key, signing_bytes, signature)
}

/// Counts a chunk read from a file stream: `read` is what the stream gave
/// (`Ok(None)` or `Ok(Some(0))` when it ended, `Err` with the error's text
/// when it broke).
pub fn incoming_read(file_size: u64, transferred: u64, read: Result<Option<usize>, String>) -> (r: Result<
    u64,
    AppError,
>)
    requires
        transferred < file_size,
        read matches Ok(Some(n)) ==> n as int <= file_size - transferred,
    ensures
        match read {
            Ok(Some(n)) => if n > 0 {
                r == Ok::<u64, AppError>((transferred + n) as u64)
            } else {
                r matches Err(AppError::File(m)) && m@ == "file stream ended early; the partial file can be resumed"@
            },
            Ok(None) => r matches Err(AppError::File(m)) && m@
                == "file stream ended early; the partial file can be resumed"@,
            Err(e) => r matches Err(AppError::File(m)) && m@ == "file stream interrupted: "@ + e@,
        },
{
    match read {
        Ok(Some(n)) => if n > 0 {
            Ok(transferred + n as u64)
        } else {
            Err(AppError::File(String::from_str("file stream ended early; the partial file can be resumed")))
        },
        Ok(None) => Err(AppError::File(String::from_str("file stream ended early; the partial file can be resumed"))),
        Err(e) => Err(AppError::File(concat2("file stream interrupted: ", e.as_str()))),
    }
}

} // verus!
