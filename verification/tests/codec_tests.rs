use xcm_codec::junction::{junction_from_bytes, junction_to_bytes};
use xcm_codec::location::{
    junctions_from_fields, junctions_to_fields, multi_location_from_parts, multi_location_to_parts,
};
use xcm_codec::network::{network_id_from_bytes, network_id_to_bytes};
use xcm_codec::types::{
    CodecError, Junction, Junctions, MultiLocation, NetworkId, MAX_GENERAL_KEY_LEN, MAX_JUNCTIONS,
    MAX_NETWORK_NAME_LEN,
};

fn junctions_of(items: Vec<Junction>) -> Junctions {
    Junctions::from_vec(items).expect("path within bound")
}

#[test]
fn network_id_round_trips() {
    let values = vec![
        NetworkId::Any,
        NetworkId::Named(b"rococo".to_vec()),
        NetworkId::Named(Vec::new()),
        NetworkId::Polkadot,
        NetworkId::Kusama,
    ];
    for v in values {
        let bytes = network_id_to_bytes(&v);
        assert_eq!(network_id_from_bytes(&bytes), Ok(v));
    }
}

#[test]
fn network_id_encodings_are_exact() {
    assert_eq!(network_id_to_bytes(&NetworkId::Any), vec![0u8]);
    assert_eq!(
        network_id_to_bytes(&NetworkId::Named(b"abc".to_vec())),
        vec![1u8, 97, 98, 99]
    );
    assert_eq!(network_id_to_bytes(&NetworkId::Polkadot), vec![2u8]);
    assert_eq!(network_id_to_bytes(&NetworkId::Kusama), vec![3u8]);
}

#[test]
fn empty_network_id_buffer_is_rejected() {
    assert_eq!(network_id_from_bytes(&Vec::new()), Err(CodecError::EmptyInput));
}

#[test]
fn unknown_network_id_tags_are_rejected() {
    assert_eq!(network_id_from_bytes(&vec![4u8]), Err(CodecError::UnknownVariantTag));
    assert_eq!(
        network_id_from_bytes(&vec![255u8, 1, 2]),
        Err(CodecError::UnknownVariantTag)
    );
}

#[test]
fn network_id_trailing_bytes_are_callers_responsibility() {
    assert_eq!(network_id_from_bytes(&vec![2u8, 99]), Ok(NetworkId::Polkadot));
    assert_eq!(network_id_from_bytes(&vec![0u8, 1, 2, 3]), Ok(NetworkId::Any));
}

#[test]
fn named_network_name_length_bounds() {
    let mut at_bound = vec![1u8];
    at_bound.extend(std::iter::repeat(7u8).take(MAX_NETWORK_NAME_LEN));
    assert_eq!(
        network_id_from_bytes(&at_bound),
        Ok(NetworkId::Named(vec![7u8; MAX_NETWORK_NAME_LEN]))
    );

    let mut over_bound = vec![1u8];
    over_bound.extend(std::iter::repeat(7u8).take(MAX_NETWORK_NAME_LEN + 1));
    assert_eq!(network_id_from_bytes(&over_bound), Err(CodecError::LengthOverflow));
}

#[test]
fn junction_round_trips() {
    let values = vec![
        Junction::Parachain(0x0102_0304),
        Junction::AccountId32 {
            network: NetworkId::Polkadot,
            id: vec![7u8; 32],
        },
        Junction::AccountIndex64 {
            network: NetworkId::Named(b"x".to_vec()),
            index: 0x1122_3344_5566_7788,
        },
        Junction::AccountKey20 {
            network: NetworkId::Any,
            key: vec![9u8; 20],
        },
        Junction::PalletInstance(42),
        Junction::GeneralIndex(0x0102_0304_0506_0708_090a_0b0c_0d0e_0f10),
        Junction::GeneralKey(b"key".to_vec()),
        Junction::OnlyChild,
    ];
    for v in values {
        let bytes = junction_to_bytes(&v).expect("representable junction");
        assert_eq!(junction_from_bytes(&bytes), Ok(v));
    }
}

#[test]
fn parachain_encoding_is_exact() {
    assert_eq!(
        junction_to_bytes(&Junction::Parachain(0x0102_0304)),
        Ok(vec![0u8, 1, 2, 3, 4])
    );
    assert_eq!(
        junction_from_bytes(&vec![0u8, 0, 0, 0, 200]),
        Ok(Junction::Parachain(200))
    );
}

#[test]
fn account_id32_polkadot_literal_case() {
    let value = Junction::AccountId32 {
        network: NetworkId::Polkadot,
        id: vec![0u8; 32],
    };
    let mut expected = vec![1u8];
    expected.extend(std::iter::repeat(0u8).take(32));
    expected.push(2u8);
    assert_eq!(junction_to_bytes(&value), Ok(expected.clone()));
    assert_eq!(junction_from_bytes(&expected), Ok(value));
}

#[test]
fn account_index64_encoding_is_exact() {
    let value = Junction::AccountIndex64 {
        network: NetworkId::Kusama,
        index: 0x1122_3344_5566_7788,
    };
    let expected = vec![
        2u8, 0x11, 0x22, 0x33, 0x44, 0x55, 0x66, 0x77, 0x88, 3,
    ];
    assert_eq!(junction_to_bytes(&value), Ok(expected));
}

#[test]
fn general_index_encoding_is_exact() {
    let mut expected = vec![5u8];
    expected.extend(std::iter::repeat(0u8).take(15));
    expected.push(1u8);
    assert_eq!(junction_to_bytes(&Junction::GeneralIndex(1)), Ok(expected));
}

#[test]
fn pallet_instance_encoding_is_exact() {
    assert_eq!(junction_to_bytes(&Junction::PalletInstance(42)), Ok(vec![4u8, 42]));
    assert_eq!(junction_to_bytes(&Junction::OnlyChild), Ok(vec![7u8]));
}

#[test]
fn empty_junction_buffer_is_rejected() {
    assert_eq!(junction_from_bytes(&Vec::new()), Err(CodecError::EmptyInput));
}

#[test]
fn unknown_junction_tags_are_rejected() {
    // Tag 8 is the plurality variant, one past the supported range.
    assert_eq!(junction_from_bytes(&vec![8u8]), Err(CodecError::UnknownVariantTag));
    assert_eq!(
        junction_from_bytes(&vec![9u8, 0, 0]),
        Err(CodecError::UnknownVariantTag)
    );
    assert_eq!(junction_from_bytes(&vec![200u8]), Err(CodecError::UnknownVariantTag));
}

#[test]
fn plurality_encoding_fails_without_output() {
    assert_eq!(
        junction_to_bytes(&Junction::Plurality),
        Err(CodecError::UnsupportedVariant)
    );
}

#[test]
fn truncated_fixed_fields_are_rejected() {
    assert_eq!(
        junction_from_bytes(&vec![0u8, 1, 2]),
        Err(CodecError::UnderlyingReaderError)
    );
    assert_eq!(
        junction_from_bytes(&vec![1u8; 32]),
        Err(CodecError::UnderlyingReaderError)
    );
    assert_eq!(
        junction_from_bytes(&vec![2u8, 0, 0, 0]),
        Err(CodecError::UnderlyingReaderError)
    );
    assert_eq!(
        junction_from_bytes(&vec![3u8; 20]),
        Err(CodecError::UnderlyingReaderError)
    );
    assert_eq!(junction_from_bytes(&vec![4u8]), Err(CodecError::UnderlyingReaderError));
    assert_eq!(
        junction_from_bytes(&vec![5u8; 16]),
        Err(CodecError::UnderlyingReaderError)
    );
}

#[test]
fn account_junction_with_empty_network_is_rejected() {
    // Exactly the tag and the 32-byte account: nothing left for the network.
    let bytes = {
        let mut b = vec![1u8];
        b.extend(std::iter::repeat(0u8).take(32));
        b
    };
    assert_eq!(junction_from_bytes(&bytes), Err(CodecError::EmptyInput));
}

#[test]
fn general_key_length_bounds() {
    let mut at_bound = vec![6u8];
    at_bound.extend(std::iter::repeat(5u8).take(MAX_GENERAL_KEY_LEN));
    assert_eq!(
        junction_from_bytes(&at_bound),
        Ok(Junction::GeneralKey(vec![5u8; MAX_GENERAL_KEY_LEN]))
    );

    let mut over_bound = vec![6u8];
    over_bound.extend(std::iter::repeat(5u8).take(MAX_GENERAL_KEY_LEN + 1));
    assert_eq!(junction_from_bytes(&over_bound), Err(CodecError::LengthOverflow));
}

#[test]
fn junctions_round_trip_preserves_order() {
    let path = junctions_of(vec![
        Junction::Parachain(1000),
        Junction::PalletInstance(3),
        Junction::OnlyChild,
    ]);
    let fields = junctions_to_fields(&path).expect("representable path");
    assert_eq!(fields.len(), 3);
    let decoded = junctions_from_fields(&fields).expect("valid fields");
    assert_eq!(decoded, path);
    assert_eq!(*decoded.get(0), Junction::Parachain(1000));
    assert_eq!(*decoded.get(2), Junction::OnlyChild);
}

#[test]
fn empty_junctions_round_trip() {
    let path = Junctions::new();
    let fields = junctions_to_fields(&path).expect("empty path encodes");
    assert_eq!(fields, Vec::<Vec<u8>>::new());
    assert_eq!(junctions_from_fields(&fields), Ok(path));
}

#[test]
fn junctions_depth_bounds() {
    let at_bound: Vec<Vec<u8>> = std::iter::repeat(vec![7u8]).take(MAX_JUNCTIONS).collect();
    let decoded = junctions_from_fields(&at_bound).expect("depth at bound decodes");
    assert_eq!(decoded.len(), MAX_JUNCTIONS);

    let over_bound: Vec<Vec<u8>> =
        std::iter::repeat(vec![7u8]).take(MAX_JUNCTIONS + 1).collect();
    assert_eq!(junctions_from_fields(&over_bound), Err(CodecError::LengthOverflow));
}

#[test]
fn junction_decode_errors_take_precedence_over_depth() {
    // Nine fields, the last one malformed: the field's own rejection wins
    // over the depth bound, as every field is decoded first.
    let mut fields: Vec<Vec<u8>> =
        std::iter::repeat(vec![7u8]).take(MAX_JUNCTIONS).collect();
    fields.push(Vec::new());
    assert_eq!(junctions_from_fields(&fields), Err(CodecError::EmptyInput));
}

#[test]
fn junctions_encoding_fails_on_plurality() {
    let path = junctions_of(vec![Junction::OnlyChild, Junction::Plurality]);
    assert_eq!(junctions_to_fields(&path), Err(CodecError::UnsupportedVariant));
}

#[test]
fn junctions_push_refuses_ninth_step() {
    let mut path = Junctions::new();
    for _ in 0..MAX_JUNCTIONS {
        path.push(Junction::OnlyChild).expect("within bound");
    }
    assert_eq!(path.len(), MAX_JUNCTIONS);
    assert_eq!(path.push(Junction::OnlyChild), Err(CodecError::LengthOverflow));
    assert_eq!(path.len(), MAX_JUNCTIONS);
}

#[test]
fn junctions_from_vec_refuses_over_deep_path() {
    let items = vec![Junction::OnlyChild; MAX_JUNCTIONS + 1];
    assert_eq!(Junctions::from_vec(items), Err(CodecError::LengthOverflow));
}

#[test]
fn multi_location_round_trips() {
    let value = MultiLocation {
        parents: 3,
        interior: junctions_of(vec![
            Junction::Parachain(100),
            Junction::AccountKey20 {
                network: NetworkId::Any,
                key: vec![1u8; 20],
            },
        ]),
    };
    let (parents, fields) = multi_location_to_parts(&value).expect("representable location");
    assert_eq!(parents, 3);
    assert_eq!(multi_location_from_parts(parents, &fields), Ok(value));
}

#[test]
fn multi_location_max_parents_empty_interior_round_trips() {
    let value = MultiLocation {
        parents: 255,
        interior: Junctions::new(),
    };
    let (parents, fields) = multi_location_to_parts(&value).expect("empty interior encodes");
    assert_eq!(parents, 255);
    assert_eq!(fields, Vec::<Vec<u8>>::new());
    assert_eq!(multi_location_from_parts(parents, &fields), Ok(value));
}

#[test]
fn multi_location_decode_propagates_interior_errors() {
    let fields = vec![vec![8u8]];
    assert_eq!(
        multi_location_from_parts(0, &fields),
        Err(CodecError::UnknownVariantTag)
    );
}

#[test]
fn nothing_has_a_static_size() {
    assert!(!Junction::has_static_size());
    assert!(!Junctions::has_static_size());
    assert!(!MultiLocation::has_static_size());
}
