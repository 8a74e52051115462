//! The junction codec: one tag byte, then the variant's fixed-width fields
//! in network byte order, then, for account-bearing variants, the network
//! identifier as the trailing field.
//!
//! The buffer handled here is the complete inner encoding of one junction,
//! as carried by one dynamic-byte field of the foreign-call ABI. Because
//! the trailing network identifier and the general-key payload carry no
//! length prefix, they are read to the end of the buffer; at most one such
//! field may stand at the tail of a variant's layout.

use vstd::prelude::*;

use crate::bytes_util::{
    push_u128_be, push_u32_be, push_u64_be, read_u128_be, read_u32_be, read_u64_be, sub_vec,
    append_bytes, spec_u128_from_be_bytes, spec_u128_to_be_bytes, spec_u32_from_be_bytes,
    spec_u32_to_be_bytes, spec_u64_from_be_bytes, spec_u64_to_be_bytes,
};
use crate::network::{
    network_id_from_bytes, network_id_to_bytes, spec_network_id_decode, spec_network_id_encode,
};
use crate::types::{junction_wf, CodecError, Junction, JunctionView, MAX_GENERAL_KEY_LEN};

verus! {

/// The inner byte encoding of a junction, or the error for the one
/// unrepresentable variant. Tags 0 to 7 select the variant; fixed fields
/// follow big-endian; account-bearing variants end with the encoded
/// network identifier.
pub open spec fn spec_junction_encode(j: JunctionView) -> Result<Seq<u8>, CodecError> {
    match j {
        JunctionView::Parachain(para_id) => Ok(seq![0u8] + spec_u32_to_be_bytes(para_id)),
        JunctionView::AccountId32 { network, id } => Ok(
            seq![1u8] + id + spec_network_id_encode(network),
        ),
        JunctionView::AccountIndex64 { network, index } => Ok(
            seq![2u8] + spec_u64_to_be_bytes(index) + spec_network_id_encode(network),
        ),
        JunctionView::AccountKey20 { network, key } => Ok(
            seq![3u8] + key + spec_network_id_encode(network),
        ),
        JunctionView::PalletInstance(instance) => Ok(seq![4u8, instance]),
        JunctionView::GeneralIndex(id) => Ok(seq![5u8] + spec_u128_to_be_bytes(id)),
        JunctionView::GeneralKey(key) => Ok(seq![6u8] + key),
        JunctionView::OnlyChild => Ok(seq![7u8]),
        JunctionView::Plurality => Err(CodecError::UnsupportedVariant),
    }
}

/// The junction a buffer of inner bytes decodes to, or the exact error it
/// is rejected with: empty buffer, a fixed-width field running past the
/// end, an over-long general key, a bad trailing network identifier, or an
/// unknown tag.
pub open spec fn spec_junction_decode(b: Seq<u8>) -> Result<JunctionView, CodecError> {
    if b.len() == 0 {
        Err(CodecError::EmptyInput)
    } else {
        let tag = b[0];
        if tag == 0 {
            if b.len() >= 5 {
                Ok(JunctionView::Parachain(spec_u32_from_be_bytes(b.subrange(1, 5))))
            } else {
                Err(CodecError::UnderlyingReaderError)
            }
        } else if tag == 1 {
            if b.len() >= 33 {
                match spec_network_id_decode(b.subrange(33, b.len() as int)) {
                    Ok(network) => Ok(
                        JunctionView::AccountId32 { network, id: b.subrange(1, 33) },
                    ),
                    Err(e) => Err(e),
                }
            } else {
                Err(CodecError::UnderlyingReaderError)
            }
        } else if tag == 2 {
            if b.len() >= 9 {
                match spec_network_id_decode(b.subrange(9, b.len() as int)) {
                    Ok(network) => Ok(
                        JunctionView::AccountIndex64 {
                            network,
                            index: spec_u64_from_be_bytes(b.subrange(1, 9)),
                        },
                    ),
                    Err(e) => Err(e),
                }
            } else {
                Err(CodecError::UnderlyingReaderError)
            }
        } else if tag == 3 {
            if b.len() >= 21 {
                match spec_network_id_decode(b.subrange(21, b.len() as int)) {
                    Ok(network) => Ok(
                        JunctionView::AccountKey20 { network, key: b.subrange(1, 21) },
                    ),
                    Err(e) => Err(e),
                }
            } else {
                Err(CodecError::UnderlyingReaderError)
            }
        } else if tag == 4 {
            if b.len() >= 2 {
                Ok(JunctionView::PalletInstance(b[1]))
            } else {
                Err(CodecError::UnderlyingReaderError)
            }
        } else if tag == 5 {
            if b.len() >= 17 {
                Ok(JunctionView::GeneralIndex(spec_u128_from_be_bytes(b.subrange(1, 17))))
            } else {
                Err(CodecError::UnderlyingReaderError)
            }
        } else if tag == 6 {
            if b.len() - 1 <= MAX_GENERAL_KEY_LEN {
                Ok(JunctionView::GeneralKey(b.subrange(1, b.len() as int)))
            } else {
                Err(CodecError::LengthOverflow)
            }
        } else if tag == 7 {
            Ok(JunctionView::OnlyChild)
        } else {
            Err(CodecError::UnknownVariantTag)
        }
    }
}

/// The encode result at view level.
pub open spec fn bytes_result_view(r: Result<Vec<u8>, CodecError>) -> Result<Seq<u8>, CodecError> {
    match r {
        Ok(v) => Ok(v@),
        Err(e) => Err(e),
    }
}

/// The decode result at view level.
pub open spec fn junction_result_view(r: Result<Junction, CodecError>) -> Result<
    JunctionView,
    CodecError,
> {
    match r {
        Ok(j) => Ok(j@),
        Err(e) => Err(e),
    }
}

/// Encodes a junction into its inner bytes. The one failure is the
/// unrepresentable plurality variant, on which no bytes are produced.
pub fn junction_to_bytes(value: &Junction) -> (r: Result<Vec<u8>, CodecError>)
    ensures
        bytes_result_view(r) == spec_junction_encode(value@),
{
    let mut encoded: Vec<u8> = Vec::new();
    match value {
        Junction::Parachain(para_id) => {
            encoded.push(0u8);
            push_u32_be(&mut encoded, *para_id);
            proof {
                assert(encoded@ =~= seq![0u8] + spec_u32_to_be_bytes(*para_id));
            }
            Ok(encoded)
        },
        Junction::AccountId32 { network, id } => {
            encoded.push(1u8);
            append_bytes(&mut encoded, id);
            let network_bytes = network_id_to_bytes(network);
            append_bytes(&mut encoded, &network_bytes);
            proof {
                assert(encoded@ =~= seq![1u8] + id@ + spec_network_id_encode(network@));
            }
            Ok(encoded)
        },
        Junction::AccountIndex64 { network, index } => {
            encoded.push(2u8);
            push_u64_be(&mut encoded, *index);
            let network_bytes = network_id_to_bytes(network);
            append_bytes(&mut encoded, &network_bytes);
            proof {
                assert(encoded@ =~= seq![2u8] + spec_u64_to_be_bytes(*index)
                    + spec_network_id_encode(network@));
            }
            Ok(encoded)
        },
        Junction::AccountKey20 { network, key } => {
            encoded.push(3u8);
            append_bytes(&mut encoded, key);
            let network_bytes = network_id_to_bytes(network);
            append_bytes(&mut encoded, &network_bytes);
            proof {
                assert(encoded@ =~= seq![3u8] + key@ + spec_network_id_encode(network@));
            }
            Ok(encoded)
        },
        Junction::PalletInstance(instance) => {
            encoded.push(4u8);
            encoded.push(*instance);
            proof {
                assert(encoded@ =~= seq![4u8, *instance]);
            }
            Ok(encoded)
        },
        Junction::GeneralIndex(id) => {
            encoded.push(5u8);
            push_u128_be(&mut encoded, *id);
            proof {
                assert(encoded@ =~= seq![5u8] + spec_u128_to_be_bytes(*id));
            }
            Ok(encoded)
        },
        Junction::GeneralKey(key) => {
            encoded.push(6u8);
            append_bytes(&mut encoded, key);
            proof {
                assert(encoded@ =~= seq![6u8] + key@);
            }
            Ok(encoded)
        },
        Junction::OnlyChild => {
            encoded.push(7u8);
            proof {
                assert(encoded@ =~= seq![7u8]);
            }
            Ok(encoded)
        },
        Junction::Plurality => Err(CodecError::UnsupportedVariant),
    }
}

/// Decodes a junction from its inner bytes, returning exactly what
/// `spec_junction_decode` says of the input; a decoded junction is always
/// well formed and never the plurality variant.
pub fn junction_from_bytes(junction_bytes: &Vec<u8>) -> (r: Result<Junction, CodecError>)
    ensures
        junction_result_view(r) == spec_junction_decode(junction_bytes@),
        r matches Ok(j) ==> junction_wf(j@) && !(j@ is Plurality),
{
    let len: usize = junction_bytes.len();
    if len == 0 {
        return Err(CodecError::EmptyInput);
    }
    let tag = junction_bytes[0];
    if tag == 0 {
        if len >= 5 {
            let para_id = read_u32_be(junction_bytes, 1);
            Ok(Junction::Parachain(para_id))
        } else {
            Err(CodecError::UnderlyingReaderError)
        }
    } else if tag == 1 {
        if len >= 33 {
            let id = sub_vec(junction_bytes, 1, 33);
            let network_bytes = sub_vec(junction_bytes, 33, len);
            match network_id_from_bytes(&network_bytes) {
                Ok(network) => Ok(Junction::AccountId32 { network, id }),
                Err(e) => Err(e),
            }
        } else {
            Err(CodecError::UnderlyingReaderError)
        }
    } else if tag == 2 {
        if len >= 9 {
            let index = read_u64_be(junction_bytes, 1);
            let network_bytes = sub_vec(junction_bytes, 9, len);
            match network_id_from_bytes(&network_bytes) {
                Ok(network) => Ok(Junction::AccountIndex64 { network, index }),
                Err(e) => Err(e),
            }
        } else {
            Err(CodecError::UnderlyingReaderError)
        }
    } else if tag == 3 {
        if len >= 21 {
            let key = sub_vec(junction_bytes, 1, 21);
            let network_bytes = sub_vec(junction_bytes, 21, len);
            match network_id_from_bytes(&network_bytes) {
                Ok(network) => Ok(Junction::AccountKey20 { network, key }),
                Err(e) => Err(e),
            }
        } else {
            Err(CodecError::UnderlyingReaderError)
        }
    } else if tag == 4 {
        if len >= 2 {
            Ok(Junction::PalletInstance(junction_bytes[1]))
        } else {
            Err(CodecError::UnderlyingReaderError)
        }
    } else if tag == 5 {
        if len >= 17 {
            let general_index = read_u128_be(junction_bytes, 1);
            Ok(Junction::GeneralIndex(general_index))
        } else {
            Err(CodecError::UnderlyingReaderError)
        }
    } else if tag == 6 {
        if len - 1 <= MAX_GENERAL_KEY_LEN {
            let key = sub_vec(junction_bytes, 1, len);
            Ok(Junction::GeneralKey(key))
        } else {
            Err(CodecError::LengthOverflow)
        }
    } else if tag == 7 {
        Ok(Junction::OnlyChild)
    } else {
        Err(CodecError::UnknownVariantTag)
    }
}

impl Junction {
    /// The junction encoding has no fixed byte width.
    pub fn has_static_size() -> (r: bool)
        ensures
            r == false,
    {
        false
    }
}

} // verus!
