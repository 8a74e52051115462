//! The laws of the codec, proved over the spec-level encode and decode
//! functions that every executable codec function is bound to by its
//! contract: round-trip fidelity for every representable value, and the
//! deterministic rejection of unknown tags, over-long bounded fields and
//! over-deep paths.

use vstd::prelude::*;

use crate::bytes_util::{
    lemma_u128_be_round_trip, lemma_u32_be_round_trip, lemma_u64_be_round_trip,
};
use crate::junction::{spec_junction_decode, spec_junction_encode};
use crate::location::{
    lemma_junctions_decode_all_append, spec_junctions_decode, spec_junctions_decode_all,
    spec_junctions_encode, spec_multi_location_decode, spec_multi_location_encode,
};
use crate::network::{spec_network_id_decode, spec_network_id_encode};
use crate::types::{
    junction_encodable, network_id_wf, CodecError, JunctionView, MultiLocationView, NetworkIdView,
    MAX_JUNCTIONS, MAX_NETWORK_NAME_LEN,
};

verus! {

/// Every well-formed network identifier survives an encode-decode round
/// trip unchanged.
pub proof fn lemma_network_id_round_trip(n: NetworkIdView)
    requires
        network_id_wf(n),
    ensures
        spec_network_id_decode(spec_network_id_encode(n)) == Ok::<NetworkIdView, CodecError>(n),
{
    match n {
        NetworkIdView::Named(name) => {
            let b = seq![1u8] + name;
            assert(b[0] == 1);
            assert(b.subrange(1, b.len() as int) =~= name);
        },
        _ => {},
    }
}

/// Every well-formed, representable junction survives an encode-decode
/// round trip unchanged.
pub proof fn lemma_junction_round_trip(j: JunctionView)
    requires
        junction_encodable(j),
    ensures
        spec_junction_encode(j) matches Ok(b) && spec_junction_decode(b) == Ok::<
            JunctionView,
            CodecError,
        >(j),
{
    match j {
        JunctionView::Parachain(para_id) => {
            let b = spec_junction_encode(j)->Ok_0;
            assert(b[0] == 0);
            assert(b.subrange(1, 5) =~= crate::bytes_util::spec_u32_to_be_bytes(para_id));
            lemma_u32_be_round_trip(para_id);
        },
        JunctionView::AccountId32 { network, id } => {
            let b = spec_junction_encode(j)->Ok_0;
            let net = spec_network_id_encode(network);
            assert(b[0] == 1);
            assert(b.len() == 33 + net.len());
            assert(b.subrange(1, 33) =~= id);
            assert(b.subrange(33, b.len() as int) =~= net);
            lemma_network_id_round_trip(network);
        },
        JunctionView::AccountIndex64 { network, index } => {
            let b = spec_junction_encode(j)->Ok_0;
            let net = spec_network_id_encode(network);
            assert(b[0] == 2);
            assert(b.len() == 9 + net.len());
            assert(b.subrange(1, 9) =~= crate::bytes_util::spec_u64_to_be_bytes(index));
            assert(b.subrange(9, b.len() as int) =~= net);
            lemma_u64_be_round_trip(index);
            lemma_network_id_round_trip(network);
        },
        JunctionView::AccountKey20 { network, key } => {
            let b = spec_junction_encode(j)->Ok_0;
            let net = spec_network_id_encode(network);
            assert(b[0] == 3);
            assert(b.len() == 21 + net.len());
            assert(b.subrange(1, 21) =~= key);
            assert(b.subrange(21, b.len() as int) =~= net);
            lemma_network_id_round_trip(network);
        },
        JunctionView::PalletInstance(instance) => {
            let b = spec_junction_encode(j)->Ok_0;
            assert(b[0] == 4 && b[1] == instance);
        },
        JunctionView::GeneralIndex(id) => {
            let b = spec_junction_encode(j)->Ok_0;
            assert(b[0] == 5);
            assert(b.subrange(1, 17) =~= crate::bytes_util::spec_u128_to_be_bytes(id));
            lemma_u128_be_round_trip(id);
        },
        JunctionView::GeneralKey(key) => {
            let b = spec_junction_encode(j)->Ok_0;
            assert(b[0] == 6);
            assert(b.subrange(1, b.len() as int) =~= key);
        },
        JunctionView::OnlyChild => {
            let b = spec_junction_encode(j)->Ok_0;
            assert(b[0] == 7);
        },
        JunctionView::Plurality => {
            assert(false);
        },
    }
}

/// Every list of well-formed, representable junctions encodes to one
/// byte field per junction, and decoding those fields restores the list
/// exactly, in order.
pub proof fn lemma_junction_list_round_trip(js: Seq<JunctionView>)
    requires
        forall|i: int| 0 <= i < js.len() ==> junction_encodable(#[trigger] js[i]),
    ensures
        spec_junctions_encode(js) matches Ok(fields) && fields.len() == js.len()
            && spec_junctions_decode_all(fields) == Ok::<Seq<JunctionView>, CodecError>(js),
    decreases js.len(),
{
    if js.len() == 0 {
        assert(js =~= Seq::<JunctionView>::empty());
        assert(spec_junctions_encode(js) == Ok::<Seq<Seq<u8>>, CodecError>(
            Seq::<Seq<u8>>::empty(),
        ));
        assert(spec_junctions_decode_all(Seq::<Seq<u8>>::empty()) == Ok::<
            Seq<JunctionView>,
            CodecError,
        >(Seq::<JunctionView>::empty()));
    } else {
        let j0 = js.first();
        let rest = js.drop_first();
        assert(junction_encodable(j0)) by {
            assert(js[0] == j0);
        }
        assert(forall|i: int| 0 <= i < rest.len() ==> junction_encodable(#[trigger] rest[i]))
            by {
            assert(forall|i: int| 0 <= i < rest.len() ==> rest[i] == js[i + 1]);
        }
        lemma_junction_round_trip(j0);
        lemma_junction_list_round_trip(rest);
        let b0 = spec_junction_encode(j0)->Ok_0;
        let rest_fields = spec_junctions_encode(rest)->Ok_0;
        let fields = spec_junctions_encode(js)->Ok_0;
        assert(fields == seq![b0] + rest_fields);
        lemma_junctions_decode_all_append(seq![b0], rest_fields);
        assert(seq![b0].drop_first() =~= Seq::<Seq<u8>>::empty());
        assert(spec_junctions_decode_all(Seq::<Seq<u8>>::empty()) == Ok::<
            Seq<JunctionView>,
            CodecError,
        >(Seq::<JunctionView>::empty()));
        assert(seq![b0].first() == b0);
        assert(seq![j0] + Seq::<JunctionView>::empty() =~= seq![j0]);
        assert(spec_junctions_decode_all(seq![b0]) == Ok::<Seq<JunctionView>, CodecError>(
            seq![j0],
        ));
        assert(seq![j0] + rest =~= js);
        assert(spec_junctions_decode_all(fields) == Ok::<Seq<JunctionView>, CodecError>(js));
    }
}

/// Round trip for a whole junction path: a path within the depth bound,
/// holding only well-formed, representable junctions, decodes from its
/// own encoding unchanged.
pub proof fn lemma_junctions_round_trip(js: Seq<JunctionView>)
    requires
        js.len() <= MAX_JUNCTIONS,
        forall|i: int| 0 <= i < js.len() ==> junction_encodable(#[trigger] js[i]),
    ensures
        spec_junctions_encode(js) matches Ok(fields) && spec_junctions_decode(fields) == Ok::<
            Seq<JunctionView>,
            CodecError,
        >(js),
{
    lemma_junction_list_round_trip(js);
}

/// Round trip for a multi-location: any ancestry count together with a
/// representable junction path decodes from its own encoding unchanged.
pub proof fn lemma_multi_location_round_trip(loc: MultiLocationView)
    requires
        loc.interior.len() <= MAX_JUNCTIONS,
        forall|i: int|
            0 <= i < loc.interior.len() ==> junction_encodable(#[trigger] loc.interior[i]),
    ensures
        spec_multi_location_encode(loc) matches Ok(parts) && spec_multi_location_decode(
            parts.0,
            parts.1,
        ) == Ok::<MultiLocationView, CodecError>(loc),
{
    lemma_junctions_round_trip(loc.interior);
}

/// A network-identifier tag outside the supported range is rejected as an
/// unknown variant tag, whatever follows it.
pub proof fn lemma_network_id_unknown_tag(b: Seq<u8>)
    requires
        b.len() > 0,
        b[0] > 3,
    ensures
        spec_network_id_decode(b) == Err::<NetworkIdView, CodecError>(
            CodecError::UnknownVariantTag,
        ),
{
}

/// A junction tag outside the supported range is rejected as an unknown
/// variant tag, whatever follows it. In particular the plurality tag, one
/// past the supported range, never decodes.
pub proof fn lemma_junction_unknown_tag(b: Seq<u8>)
    requires
        b.len() > 0,
        b[0] > 7,
    ensures
        spec_junction_decode(b) == Err::<JunctionView, CodecError>(CodecError::UnknownVariantTag),
{
}

/// A named network name decodes exactly when it is within the bound:
/// every name up to `MAX_NETWORK_NAME_LEN` is restored unchanged, and
/// every longer one is rejected as a length overflow.
pub proof fn lemma_named_length_bounds(name: Seq<u8>)
    ensures
        name.len() <= MAX_NETWORK_NAME_LEN ==> spec_network_id_decode(seq![1u8] + name) == Ok::<
            NetworkIdView,
            CodecError,
        >(NetworkIdView::Named(name)),
        name.len() > MAX_NETWORK_NAME_LEN ==> spec_network_id_decode(seq![1u8] + name) == Err::<
            NetworkIdView,
            CodecError,
        >(CodecError::LengthOverflow),
{
    let b = seq![1u8] + name;
    assert(b[0] == 1);
    assert(b.subrange(1, b.len() as int) =~= name);
}

/// When every field of a list decodes, the whole list decodes, one
/// junction per field.
pub proof fn lemma_decode_all_ok(fields: Seq<Seq<u8>>)
    requires
        forall|i: int| 0 <= i < fields.len() ==> (#[trigger] spec_junction_decode(fields[i]))
            is Ok,
    ensures
        spec_junctions_decode_all(fields) matches Ok(js) && js.len() == fields.len(),
    decreases fields.len(),
{
    if fields.len() > 0 {
        let rest = fields.drop_first();
        assert(spec_junction_decode(fields[0]) is Ok);
        assert(forall|i: int|
            0 <= i < rest.len() ==> (#[trigger] spec_junction_decode(rest[i])) is Ok) by {
            assert(forall|i: int| 0 <= i < rest.len() ==> rest[i] == fields[i + 1]);
        }
        lemma_decode_all_ok(rest);
    }
}

/// A list of individually valid junction fields decodes exactly when it
/// is within the depth bound: up to `MAX_JUNCTIONS` fields decode, and
/// any longer list is rejected as a length overflow.
pub proof fn lemma_junctions_depth_bounds(fields: Seq<Seq<u8>>)
    requires
        forall|i: int| 0 <= i < fields.len() ==> (#[trigger] spec_junction_decode(fields[i]))
            is Ok,
    ensures
        fields.len() <= MAX_JUNCTIONS ==> spec_junctions_decode(fields) is Ok,
        fields.len() > MAX_JUNCTIONS ==> spec_junctions_decode(fields) == Err::<
            Seq<JunctionView>,
            CodecError,
        >(CodecError::LengthOverflow),
{
    lemma_decode_all_ok(fields);
}

/// The plurality junction variant has no encoding: encoding it fails and
/// yields no bytes.
pub proof fn lemma_plurality_has_no_encoding(j: JunctionView)
    requires
        j is Plurality,
    ensures
        spec_junction_encode(j) == Err::<Seq<u8>, CodecError>(CodecError::UnsupportedVariant),
{
}

} // verus!
