//! The network-identifier codec: one tag byte, then, for a named network
//! only, the raw name bytes.
//!
//! Because the name carries no length prefix, decoding consumes the whole
//! remaining buffer as the name; a network identifier may therefore only
//! stand as the final field of an outer record.

use vstd::prelude::*;

use crate::types::{CodecError, NetworkId, NetworkIdView, network_id_wf, MAX_NETWORK_NAME_LEN};

verus! {

/// The byte encoding of a network identifier: tag 0 `Any`, 1 `Named`
/// (followed by the raw name), 2 `Polkadot`, 3 `Kusama`.
pub open spec fn spec_network_id_encode(n: NetworkIdView) -> Seq<u8> {
    match n {
        NetworkIdView::Any => seq![0u8],
        NetworkIdView::Named(name) => seq![1u8] + name,
        NetworkIdView::Polkadot => seq![2u8],
        NetworkIdView::Kusama => seq![3u8],
    }
}

/// The value a network-identifier buffer decodes to, or the exact error it
/// is rejected with: empty buffer, over-long name, or unknown tag. For
/// tags without payload, trailing bytes are the caller's to validate.
pub open spec fn spec_network_id_decode(b: Seq<u8>) -> Result<NetworkIdView, CodecError> {
    if b.len() == 0 {
        Err(CodecError::EmptyInput)
    } else if b[0] == 0 {
        Ok(NetworkIdView::Any)
    } else if b[0] == 1 {
        if b.len() - 1 <= MAX_NETWORK_NAME_LEN {
            Ok(NetworkIdView::Named(b.subrange(1, b.len() as int)))
        } else {
            Err(CodecError::LengthOverflow)
        }
    } else if b[0] == 2 {
        Ok(NetworkIdView::Polkadot)
    } else if b[0] == 3 {
        Ok(NetworkIdView::Kusama)
    } else {
        Err(CodecError::UnknownVariantTag)
    }
}

/// The decode result at view level.
pub open spec fn network_id_result_view(r: Result<NetworkId, CodecError>) -> Result<
    NetworkIdView,
    CodecError,
> {
    match r {
        Ok(n) => Ok(n@),
        Err(e) => Err(e),
    }
}

/// Encodes a network identifier. Total: every network identifier value,
/// bounded or not, has this byte image.
pub fn network_id_to_bytes(network_id: &NetworkId) -> (r: Vec<u8>)
    ensures
        r@ =~= spec_network_id_encode(network_id@),
{
    let mut encoded: Vec<u8> = Vec::new();
    match network_id {
        NetworkId::Any => {
            encoded.push(0u8);
        },
        NetworkId::Named(name) => {
            encoded.push(1u8);
            crate::bytes_util::append_bytes(&mut encoded, name);
        },
        NetworkId::Polkadot => {
            encoded.push(2u8);
        },
        NetworkId::Kusama => {
            encoded.push(3u8);
        },
    }
    encoded
}

/// Decodes a network identifier, returning exactly what
/// `spec_network_id_decode` says of the input bytes; a decoded value is
/// always well formed.
pub fn network_id_from_bytes(encoded_bytes: &Vec<u8>) -> (r: Result<NetworkId, CodecError>)
    ensures
        network_id_result_view(r) == spec_network_id_decode(encoded_bytes@),
        r matches Ok(n) ==> network_id_wf(n@),
{
    if encoded_bytes.len() == 0 {
        return Err(CodecError::EmptyInput);
    }
    let tag = encoded_bytes[0];
    if tag == 0 {
        Ok(NetworkId::Any)
    } else if tag == 1 {
        if encoded_bytes.len() - 1 <= MAX_NETWORK_NAME_LEN {
            let name = crate::bytes_util::sub_vec(encoded_bytes, 1, encoded_bytes.len());
            proof {
                assert(name@ == encoded_bytes@.subrange(1, encoded_bytes@.len() as int));
            }
            Ok(NetworkId::Named(name))
        } else {
            Err(CodecError::LengthOverflow)
        }
    } else if tag == 2 {
        Ok(NetworkId::Polkadot)
    } else if tag == 3 {
        Ok(NetworkId::Kusama)
    } else {
        Err(CodecError::UnknownVariantTag)
    }
}

} // verus!
