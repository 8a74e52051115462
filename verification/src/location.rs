//! The junction-path and multi-location codecs.
//!
//! A junction path travels as an ordered list of dynamic-byte fields, one
//! per junction, carried by the generic sequence framing of the
//! foreign-call ABI; a multi-location adds the ancestry count through the
//! generic tuple framing. Those framings belong to the ABI layer; this
//! module takes and yields the per-junction inner byte fields and the
//! ancestry count as plain values.

use vstd::prelude::*;

use crate::junction::{
    junction_from_bytes, junction_to_bytes, spec_junction_decode, spec_junction_encode,
};
use crate::types::{
    CodecError, Junction, JunctionView, Junctions, MultiLocation, MultiLocationView, MAX_JUNCTIONS,
};

verus! {

/// A list of junction byte fields at view level.
pub open spec fn fields_view(fields: Seq<Vec<u8>>) -> Seq<Seq<u8>> {
    fields.map_values(|v: Vec<u8>| v@)
}

/// A list of junctions at view level.
pub open spec fn junction_seq_view(items: Seq<Junction>) -> Seq<JunctionView> {
    items.map_values(|j: Junction| j@)
}

/// The junctions every field of the list decodes to, in order, or the
/// error of the first field that is rejected.
pub open spec fn spec_junctions_decode_all(fields: Seq<Seq<u8>>) -> Result<
    Seq<JunctionView>,
    CodecError,
>
    decreases fields.len(),
{
    if fields.len() == 0 {
        Ok(Seq::empty())
    } else {
        match spec_junction_decode(fields.first()) {
            Ok(j) => match spec_junctions_decode_all(fields.drop_first()) {
                Ok(rest) => Ok(seq![j] + rest),
                Err(e) => Err(e),
            },
            Err(e) => Err(e),
        }
    }
}

/// The junction path a list of byte fields decodes to: every field must
/// decode, in order, and the path must not exceed `MAX_JUNCTIONS`. A field
/// that is rejected takes precedence over the depth bound.
pub open spec fn spec_junctions_decode(fields: Seq<Seq<u8>>) -> Result<
    Seq<JunctionView>,
    CodecError,
> {
    match spec_junctions_decode_all(fields) {
        Ok(js) => if js.len() <= MAX_JUNCTIONS {
            Ok(js)
        } else {
            Err(CodecError::LengthOverflow)
        },
        Err(e) => Err(e),
    }
}

/// The byte fields of a junction path, one per junction in order, or the
/// error of the first junction that has no encoding.
pub open spec fn spec_junctions_encode(js: Seq<JunctionView>) -> Result<Seq<Seq<u8>>, CodecError>
    decreases js.len(),
{
    if js.len() == 0 {
        Ok(Seq::empty())
    } else {
        match spec_junction_encode(js.first()) {
            Ok(b) => match spec_junctions_encode(js.drop_first()) {
                Ok(rest) => Ok(seq![b] + rest),
                Err(e) => Err(e),
            },
            Err(e) => Err(e),
        }
    }
}

/// Decoding a concatenation of field lists decodes the two parts in turn:
/// an error in the first part wins, then an error in the second, else the
/// decoded junctions are concatenated.
pub proof fn lemma_junctions_decode_all_append(a: Seq<Seq<u8>>, b: Seq<Seq<u8>>)
    ensures
        spec_junctions_decode_all(a + b) == (match spec_junctions_decode_all(a) {
            Ok(ja) => match spec_junctions_decode_all(b) {
                Ok(jb) => Ok::<Seq<JunctionView>, CodecError>(ja + jb),
                Err(e) => Err(e),
            },
            Err(e) => Err(e),
        }),
    decreases a.len(),
{
    if a.len() == 0 {
        assert(a + b =~= b);
        match spec_junctions_decode_all(b) {
            Ok(jb) => {
                assert(Seq::<JunctionView>::empty() + jb =~= jb);
            },
            Err(e) => {},
        }
    } else {
        assert((a + b).first() == a.first());
        assert((a + b).drop_first() =~= a.drop_first() + b);
        lemma_junctions_decode_all_append(a.drop_first(), b);
        match spec_junction_decode(a.first()) {
            Ok(j) => {
                match spec_junctions_decode_all(a.drop_first()) {
                    Ok(ra) => {
                        match spec_junctions_decode_all(b) {
                            Ok(jb) => {
                                assert(seq![j] + (ra + jb) =~= (seq![j] + ra) + jb);
                            },
                            Err(e) => {},
                        }
                    },
                    Err(e) => {},
                }
            },
            Err(e) => {},
        }
    }
}

/// The same composition law for encoding.
pub proof fn lemma_junctions_encode_append(a: Seq<JunctionView>, b: Seq<JunctionView>)
    ensures
        spec_junctions_encode(a + b) == (match spec_junctions_encode(a) {
            Ok(fa) => match spec_junctions_encode(b) {
                Ok(fb) => Ok::<Seq<Seq<u8>>, CodecError>(fa + fb),
                Err(e) => Err(e),
            },
            Err(e) => Err(e),
        }),
    decreases a.len(),
{
    if a.len() == 0 {
        assert(a + b =~= b);
        match spec_junctions_encode(b) {
            Ok(fb) => {
                assert(Seq::<Seq<u8>>::empty() + fb =~= fb);
            },
            Err(e) => {},
        }
    } else {
        assert((a + b).first() == a.first());
        assert((a + b).drop_first() =~= a.drop_first() + b);
        lemma_junctions_encode_append(a.drop_first(), b);
        match spec_junction_encode(a.first()) {
            Ok(f) => {
                match spec_junctions_encode(a.drop_first()) {
                    Ok(fa) => {
                        match spec_junctions_encode(b) {
                            Ok(fb) => {
                                assert(seq![f] + (fa + fb) =~= (seq![f] + fa) + fb);
                            },
                            Err(e) => {},
                        }
                    },
                    Err(e) => {},
                }
            },
            Err(e) => {},
        }
    }
}

/// The decode result of a junction path at view level.
pub open spec fn junctions_result_view(r: Result<Junctions, CodecError>) -> Result<
    Seq<JunctionView>,
    CodecError,
> {
    match r {
        Ok(js) => Ok(js@),
        Err(e) => Err(e),
    }
}

/// The encode result of a junction path at view level.
pub open spec fn fields_result_view(r: Result<Vec<Vec<u8>>, CodecError>) -> Result<
    Seq<Seq<u8>>,
    CodecError,
> {
    match r {
        Ok(v) => Ok(fields_view(v@)),
        Err(e) => Err(e),
    }
}

/// Decodes a junction path from its list of byte fields, returning
/// exactly what `spec_junctions_decode` says of the list; order is
/// preserved and a decoded path is always within the depth bound.
pub fn junctions_from_fields(fields: &Vec<Vec<u8>>) -> (r: Result<Junctions, CodecError>)
    ensures
        junctions_result_view(r) == spec_junctions_decode(fields_view(fields@)),
        r matches Ok(js) ==> js.wf(),
{
    let ghost all_fields = fields_view(fields@);
    let mut decoded: Vec<Junction> = Vec::new();
    let mut i: usize = 0;
    proof {
        assert(all_fields.take(0) =~= Seq::<Seq<u8>>::empty());
        assert(junction_seq_view(decoded@) =~= Seq::<JunctionView>::empty());
    }
    while i < fields.len()
        invariant
            i <= fields@.len(),
            all_fields == fields_view(fields@),
            all_fields.len() == fields@.len(),
            spec_junctions_decode_all(all_fields.take(i as int)) == Ok::<
                Seq<JunctionView>,
                CodecError,
            >(junction_seq_view(decoded@)),
        decreases fields@.len() - i,
    {
        let ghost prefix = all_fields.take(i as int);
        let ghost field = all_fields[i as int];
        proof {
            assert(field == fields@[i as int]@);
            assert(all_fields.take(i as int + 1) =~= prefix + seq![field]);
            assert(seq![field].drop_first() =~= Seq::<Seq<u8>>::empty());
            lemma_junctions_decode_all_append(prefix, seq![field]);
        }
        match junction_from_bytes(&fields[i]) {
            Ok(j) => {
                proof {
                    let js = junction_seq_view(decoded@);
                    assert(spec_junction_decode(field) == Ok::<JunctionView, CodecError>(j@));
                    assert(seq![j@] + Seq::<JunctionView>::empty() =~= seq![j@]);
                    assert(spec_junctions_decode_all(Seq::<Seq<u8>>::empty()) == Ok::<
                        Seq<JunctionView>,
                        CodecError,
                    >(Seq::<JunctionView>::empty()));
                    assert(spec_junctions_decode_all(seq![field]) == Ok::<
                        Seq<JunctionView>,
                        CodecError,
                    >(seq![j@]));
                    assert(js + seq![j@] =~= js.push(j@));
                    assert(spec_junctions_decode_all(all_fields.take(i as int + 1)) == Ok::<
                        Seq<JunctionView>,
                        CodecError,
                    >(js.push(j@)));
                    assert(junction_seq_view(decoded@.push(j)) =~= js.push(j@));
                }
                decoded.push(j);
            },
            Err(e) => {
                proof {
                    assert(spec_junctions_decode_all(all_fields.take(i as int + 1)) == Err::<
                        Seq<JunctionView>,
                        CodecError,
                    >(e));
                    lemma_junctions_decode_all_append(
                        all_fields.take(i as int + 1),
                        all_fields.skip(i as int + 1),
                    );
                    assert(all_fields.take(i as int + 1) + all_fields.skip(i as int + 1)
                        =~= all_fields);
                }
                return Err(e);
            },
        }
        i = i + 1;
    }
    proof {
        assert(all_fields.take(fields@.len() as int) =~= all_fields);
    }
    match Junctions::from_vec(decoded) {
        Ok(junctions) => Ok(junctions),
        Err(e) => Err(e),
    }
}

/// Encodes a junction path into its list of byte fields, one per junction
/// in the path's order. The one failure is a path holding the
/// unrepresentable plurality variant.
pub fn junctions_to_fields(value: &Junctions) -> (r: Result<Vec<Vec<u8>>, CodecError>)
    ensures
        fields_result_view(r) == spec_junctions_encode(value@),
{
    let mut out: Vec<Vec<u8>> = Vec::new();
    let n = value.len();
    let mut i: usize = 0;
    proof {
        assert(value@.take(0) =~= Seq::<JunctionView>::empty());
        assert(fields_view(out@) =~= Seq::<Seq<u8>>::empty());
    }
    while i < n
        invariant
            i <= value@.len(),
            n == value@.len(),
            spec_junctions_encode(value@.take(i as int)) == Ok::<Seq<Seq<u8>>, CodecError>(
                fields_view(out@),
            ),
        decreases value@.len() - i,
    {
        let ghost prefix = value@.take(i as int);
        let ghost step = value@[i as int];
        proof {
            assert(value@.take(i as int + 1) =~= prefix + seq![step]);
            assert(seq![step].drop_first() =~= Seq::<JunctionView>::empty());
            lemma_junctions_encode_append(prefix, seq![step]);
        }
        match junction_to_bytes(value.get(i)) {
            Ok(b) => {
                proof {
                    let fs = fields_view(out@);
                    assert(spec_junction_encode(step) == Ok::<Seq<u8>, CodecError>(b@));
                    assert(seq![b@] + Seq::<Seq<u8>>::empty() =~= seq![b@]);
                    assert(spec_junctions_encode(Seq::<JunctionView>::empty()) == Ok::<
                        Seq<Seq<u8>>,
                        CodecError,
                    >(Seq::<Seq<u8>>::empty()));
                    assert(spec_junctions_encode(seq![step]) == Ok::<Seq<Seq<u8>>, CodecError>(
                        seq![b@],
                    ));
                    assert(fs + seq![b@] =~= fs.push(b@));
                    assert(spec_junctions_encode(value@.take(i as int + 1)) == Ok::<
                        Seq<Seq<u8>>,
                        CodecError,
                    >(fs.push(b@)));
                    assert(fields_view(out@.push(b)) =~= fs.push(b@));
                }
                out.push(b);
            },
            Err(e) => {
                proof {
                    assert(spec_junctions_encode(value@.take(i as int + 1)) == Err::<
                        Seq<Seq<u8>>,
                        CodecError,
                    >(e));
                    lemma_junctions_encode_append(
                        value@.take(i as int + 1),
                        value@.skip(i as int + 1),
                    );
                    assert(value@.take(i as int + 1) + value@.skip(i as int + 1) =~= value@);
                }
                return Err(e);
            },
        }
        i = i + 1;
    }
    proof {
        assert(value@.take(value@.len() as int) =~= value@);
    }
    Ok(out)
}

/// The multi-location a tuple of plain parts decodes to: the ancestry
/// count passes through; the byte fields decode as a junction path.
pub open spec fn spec_multi_location_decode(parents: u8, fields: Seq<Seq<u8>>) -> Result<
    MultiLocationView,
    CodecError,
> {
    match spec_junctions_decode(fields) {
        Ok(interior) => Ok(MultiLocationView { parents, interior }),
        Err(e) => Err(e),
    }
}

/// The tuple of plain parts a multi-location encodes to.
pub open spec fn spec_multi_location_encode(loc: MultiLocationView) -> Result<
    (u8, Seq<Seq<u8>>),
    CodecError,
> {
    match spec_junctions_encode(loc.interior) {
        Ok(fields) => Ok((loc.parents, fields)),
        Err(e) => Err(e),
    }
}

/// The decode result of a multi-location at view level.
pub open spec fn location_result_view(r: Result<MultiLocation, CodecError>) -> Result<
    MultiLocationView,
    CodecError,
> {
    match r {
        Ok(loc) => Ok(loc@),
        Err(e) => Err(e),
    }
}

/// The encode result of a multi-location at view level.
pub open spec fn location_parts_view(r: Result<(u8, Vec<Vec<u8>>), CodecError>) -> Result<
    (u8, Seq<Seq<u8>>),
    CodecError,
> {
    match r {
        Ok((parents, fields)) => Ok((parents, fields_view(fields@))),
        Err(e) => Err(e),
    }
}

/// Decodes a multi-location from its tuple parts, in declared field
/// order: ancestry count first, then the junction path.
pub fn multi_location_from_parts(parents: u8, fields: &Vec<Vec<u8>>) -> (r: Result<
    MultiLocation,
    CodecError,
>)
    ensures
        location_result_view(r) == spec_multi_location_decode(parents, fields_view(fields@)),
        r matches Ok(loc) ==> loc.wf(),
{
    match junctions_from_fields(fields) {
        Ok(interior) => Ok(MultiLocation { parents, interior }),
        Err(e) => Err(e),
    }
}

/// Encodes a multi-location into its tuple parts.
pub fn multi_location_to_parts(value: &MultiLocation) -> (r: Result<
    (u8, Vec<Vec<u8>>),
    CodecError,
>)
    ensures
        location_parts_view(r) == spec_multi_location_encode(value@),
{
    match junctions_to_fields(&value.interior) {
        Ok(fields) => Ok((value.parents, fields)),
        Err(e) => Err(e),
    }
}

} // verus!
