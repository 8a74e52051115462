//! The domain types of the codec and their mathematical views.
//!
//! All four value types are immutable plain data; the codec never retains
//! them. The capacity bounds are policy constants of the addressing domain
//! this codec serves, named here so that they stay in lock-step with it.

use vstd::prelude::*;

verus! {

/// Longest name a `NetworkId::Named` may carry.
pub const MAX_NETWORK_NAME_LEN: usize = 32;

/// Longest payload a `Junction::GeneralKey` may carry.
pub const MAX_GENERAL_KEY_LEN: usize = 32;

/// Greatest number of junction steps a `Junctions` path may hold.
pub const MAX_JUNCTIONS: usize = 8;

/// The ways a codec call can fail. Every failure is deterministic and
/// side-effect free: no partial value is returned and no bytes are written.
#[derive(Clone, Copy, PartialEq, Eq, Structural, Debug)]
pub enum CodecError {
    /// A tag byte was expected but the buffer was empty.
    EmptyInput,
    /// The tag byte is outside the supported range for the decoded type.
    UnknownVariantTag,
    /// A bounded variable-length field exceeds its declared bound.
    LengthOverflow,
    /// The value has no encoding (the plurality junction variant).
    UnsupportedVariant,
    /// A fixed-width read ran past the end of the buffer.
    UnderlyingReaderError,
}

/// Identifies which external network an account-bearing junction refers to.
#[derive(Clone, PartialEq, Eq, Debug)]
pub enum NetworkId {
    Any,
    /// A named network; the name is bounded by `MAX_NETWORK_NAME_LEN`.
    Named(Vec<u8>),
    Polkadot,
    Kusama,
}

/// Mathematical view of a `NetworkId`.
#[verifier::ext_equal]
pub enum NetworkIdView {
    Any,
    Named(Seq<u8>),
    Polkadot,
    Kusama,
}

impl View for NetworkId {
    type V = NetworkIdView;

    open spec fn view(&self) -> NetworkIdView {
        match self {
            NetworkId::Any => NetworkIdView::Any,
            NetworkId::Named(name) => NetworkIdView::Named(name@),
            NetworkId::Polkadot => NetworkIdView::Polkadot,
            NetworkId::Kusama => NetworkIdView::Kusama,
        }
    }
}

/// A `NetworkId` is well formed when a named network's name is within bound.
pub open spec fn network_id_wf(n: NetworkIdView) -> bool {
    n matches NetworkIdView::Named(name) ==> name.len() <= MAX_NETWORK_NAME_LEN
}

/// One typed step in a multi-location path.
///
/// `Plurality` exists in the addressing domain but has no byte encoding
/// here: encoding it fails with `CodecError::UnsupportedVariant`.
#[derive(Clone, PartialEq, Eq, Debug)]
pub enum Junction {
    Parachain(u32),
    /// `id` is a 32-byte account identifier.
    AccountId32 { network: NetworkId, id: Vec<u8> },
    AccountIndex64 { network: NetworkId, index: u64 },
    /// `key` is a 20-byte account key.
    AccountKey20 { network: NetworkId, key: Vec<u8> },
    PalletInstance(u8),
    GeneralIndex(u128),
    /// The payload is bounded by `MAX_GENERAL_KEY_LEN`.
    GeneralKey(Vec<u8>),
    OnlyChild,
    Plurality,
}

/// Mathematical view of a `Junction`.
#[verifier::ext_equal]
pub enum JunctionView {
    Parachain(u32),
    AccountId32 { network: NetworkIdView, id: Seq<u8> },
    AccountIndex64 { network: NetworkIdView, index: u64 },
    AccountKey20 { network: NetworkIdView, key: Seq<u8> },
    PalletInstance(u8),
    GeneralIndex(u128),
    GeneralKey(Seq<u8>),
    OnlyChild,
    Plurality,
}

impl View for Junction {
    type V = JunctionView;

    open spec fn view(&self) -> JunctionView {
        match self {
            Junction::Parachain(para_id) => JunctionView::Parachain(*para_id),
            Junction::AccountId32 { network, id } => JunctionView::AccountId32 {
                network: network@,
                id: id@,
            },
            Junction::AccountIndex64 { network, index } => JunctionView::AccountIndex64 {
                network: network@,
                index: *index,
            },
            Junction::AccountKey20 { network, key } => JunctionView::AccountKey20 {
                network: network@,
                key: key@,
            },
            Junction::PalletInstance(instance) => JunctionView::PalletInstance(*instance),
            Junction::GeneralIndex(id) => JunctionView::GeneralIndex(*id),
            Junction::GeneralKey(key) => JunctionView::GeneralKey(key@),
            Junction::OnlyChild => JunctionView::OnlyChild,
            Junction::Plurality => JunctionView::Plurality,
        }
    }
}

/// A `Junction` is well formed when its fixed-width byte fields have their
/// declared width, its bounded fields are within bound, and its network
/// identifier, if any, is well formed.
pub open spec fn junction_wf(j: JunctionView) -> bool {
    match j {
        JunctionView::AccountId32 { network, id } => network_id_wf(network) && id.len() == 32,
        JunctionView::AccountIndex64 { network, index } => network_id_wf(network),
        JunctionView::AccountKey20 { network, key } => network_id_wf(network) && key.len() == 20,
        JunctionView::GeneralKey(key) => key.len() <= MAX_GENERAL_KEY_LEN,
        _ => true,
    }
}

/// Well formed and representable by this codec: everything but `Plurality`.
pub open spec fn junction_encodable(j: JunctionView) -> bool {
    junction_wf(j) && !(j is Plurality)
}

/// An ordered path of junction steps, at most `MAX_JUNCTIONS` deep.
///
/// The bound is an invariant of the type: `push` refuses a ninth step, so
/// no value of this type is ever deeper than the domain allows.
#[derive(Clone, PartialEq, Eq, Debug)]
pub struct Junctions {
    items: Vec<Junction>,
}

impl View for Junctions {
    type V = Seq<JunctionView>;

    closed spec fn view(&self) -> Seq<JunctionView> {
        self.items@.map_values(|j: Junction| j@)
    }
}

impl Junctions {
    /// The depth bound holds of every value built through `new` and `push`.
    pub open spec fn wf(self) -> bool {
        self@.len() <= MAX_JUNCTIONS
    }

    /// The empty path.
    pub fn new() -> (r: Junctions)
        ensures
            r@ =~= Seq::<JunctionView>::empty(),
            r.wf(),
    {
        Junctions { items: Vec::new() }
    }

    /// Appends one step, refusing to grow past `MAX_JUNCTIONS`.
    pub fn push(&mut self, j: Junction) -> (r: Result<(), CodecError>)
        requires
            old(self).wf(),
        ensures
            final(self).wf(),
            match r {
                Ok(()) => old(self)@.len() < MAX_JUNCTIONS && final(self)@ =~= old(self)@.push(
                    j@,
                ),
                Err(e) => {
                    &&& e == CodecError::LengthOverflow
                    &&& old(self)@.len() == MAX_JUNCTIONS
                    &&& final(self)@ =~= old(self)@
                },
            },
    {
        if self.items.len() < MAX_JUNCTIONS {
            self.items.push(j);
            Ok(())
        } else {
            Err(CodecError::LengthOverflow)
        }
    }

    /// Builds a path from a list of steps, refusing one deeper than
    /// `MAX_JUNCTIONS`; order is preserved exactly.
    pub fn from_vec(items: Vec<Junction>) -> (r: Result<Junctions, CodecError>)
        ensures
            match r {
                Ok(js) => {
                    &&& items@.len() <= MAX_JUNCTIONS
                    &&& js@ =~= items@.map_values(|j: Junction| j@)
                    &&& js.wf()
                },
                Err(e) => {
                    &&& e == CodecError::LengthOverflow
                    &&& items@.len() > MAX_JUNCTIONS
                },
            },
    {
        if items.len() <= MAX_JUNCTIONS {
            Ok(Junctions { items })
        } else {
            Err(CodecError::LengthOverflow)
        }
    }

    /// Number of steps in the path.
    pub fn len(&self) -> (r: usize)
        ensures
            r == self@.len(),
    {
        self.items.len()
    }

    /// The step at position `i`.
    pub fn get(&self, i: usize) -> (r: &Junction)
        requires
            i < self@.len(),
        ensures
            r@ == self@[i as int],
    {
        &self.items[i]
    }

    /// The junction path encoding has no fixed byte width.
    pub fn has_static_size() -> (r: bool)
        ensures
            r == false,
    {
        false
    }
}

/// A position in the hierarchical addressing space: how many ancestors to
/// climb, then which path to descend.
#[derive(Clone, PartialEq, Eq, Debug)]
pub struct MultiLocation {
    pub parents: u8,
    pub interior: Junctions,
}

/// Mathematical view of a `MultiLocation`.
#[verifier::ext_equal]
pub struct MultiLocationView {
    pub parents: u8,
    pub interior: Seq<JunctionView>,
}

impl View for MultiLocation {
    type V = MultiLocationView;

    open spec fn view(&self) -> MultiLocationView {
        MultiLocationView { parents: self.parents, interior: self.interior@ }
    }
}

impl MultiLocation {
    pub open spec fn wf(self) -> bool {
        self.interior.wf()
    }

    /// The multi-location encoding has no fixed byte width, since its
    /// junction path has none.
    pub fn has_static_size() -> (r: bool)
        ensures
            r == false,
    {
        false
    }
}

} // verus!
