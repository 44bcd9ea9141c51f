//! The controller's fabric identity: loaded from storage or minted on first run,
//! then installed as a fabric.
//!
//! A stored identity always wins over what was asked for: minting a new fabric
//! would orphan every node commissioned onto the old one.

use crate::error::{invalid, invalid_data, SdkError, SdkErrorModel};
use crate::tlv::{member_models, MemberModel, Tag, TagModel, Tlv, TlvModel};
use vstd::prelude::*;
use vstd::utf8::{
    decode_utf8_split, encode_utf8, encode_utf8_decode_utf8, encode_utf8_first_scalar,
    encode_utf8_valid_utf8, is_char_boundary, is_char_boundary_start_end_of_seq, pop_first_scalar,
    valid_utf8_split,
};

verus! {

/// Operational node id of this controller on its own fabric.
pub const CONTROLLER_NODE_ID: u64 = 112233;

/// How many bytes a fabric label may have.
pub const FABRIC_LABEL_MAX_BYTES: usize = 32;

/// Whether a text fits in `max` bytes of UTF-8.
pub open spec fn fits(s: Seq<char>, max: nat) -> bool {
    encode_utf8(s).len() <= max
}

/// The longest prefix that fits in `max` bytes.
pub open spec fn truncated(s: Seq<char>, max: nat) -> Seq<char>
    decreases s.len(),
{
    if s.len() == 0 || fits(s, max) {
        s
    } else {
        truncated(s.drop_last(), max)
    }
}

proof fn lemma_encode_concat(a: Seq<char>, b: Seq<char>)
    ensures
        encode_utf8(a + b) == encode_utf8(a) + encode_utf8(b),
    decreases a.len(),
{
    if a.len() == 0 {
        assert(a + b =~= b);
        assert(encode_utf8(a) =~= Seq::empty());
        assert(encode_utf8(a) + encode_utf8(b) =~= encode_utf8(b));
    } else {
        assert((a + b).drop_first() =~= a.drop_first() + b);
        lemma_encode_concat(a.drop_first(), b);
        assert(encode_utf8(a + b) =~= encode_utf8(a) + encode_utf8(b));
    }
}

/// The end of a prefix is a character boundary.
proof fn lemma_prefix_ends_on_boundary(a: Seq<char>, b: Seq<char>)
    ensures
        is_char_boundary(encode_utf8(a + b), encode_utf8(a).len() as int),
    decreases a.len(),
{
    let s = a + b;
    let bytes = encode_utf8(s);
    encode_utf8_valid_utf8(s);
    lemma_encode_concat(a, b);
    if a.len() > 0 {
        assert(s.drop_first() =~= a.drop_first() + b);
        encode_utf8_first_scalar(s);
        assert(pop_first_scalar(bytes) =~= encode_utf8(s.drop_first()));
        lemma_prefix_ends_on_boundary(a.drop_first(), b);
    }
}

/// A prefix that fits, while the next longer one does not, is the longest.
proof fn lemma_truncated_is(p: Seq<char>, r: Seq<char>, max: nat)
    requires
        fits(p, max),
        r.len() > 0 ==> !fits(p.push(r[0]), max),
    ensures
        truncated(p + r, max) == p,
    decreases r.len(),
{
    if r.len() == 0 {
        assert(p + r =~= p);
    } else {
        assert(p + r =~= p.push(r[0]) + r.drop_first());
        lemma_encode_concat(p.push(r[0]), r.drop_first());
        assert(!fits(p + r, max));
        assert((p + r).drop_last() =~= p + r.drop_last());
        if r.len() > 1 {
            assert(r.drop_last()[0] == r[0]);
        }
        lemma_truncated_is(p, r.drop_last(), max);
    }
}

/// The longest prefix of `s` that fits in `max_bytes` without splitting a
/// character.
pub fn truncate_to_bytes(s: &str, max_bytes: usize) -> (res: &str)
    ensures
        res@ == truncated(s@, max_bytes as nat),
        encode_utf8(res@).len() <= max_bytes,
{
    proof {
        encode_utf8_valid_utf8(s@);
        encode_utf8_decode_utf8(s@);
        is_char_boundary_start_end_of_seq(encode_utf8(s@));
    }
    let ghost bytes = encode_utf8(s@);
    if s.as_bytes().len() <= max_bytes {
        return s;
    }
    let mut end: usize = max_bytes;
    while end > 0 && !s.is_char_boundary(end)
        invariant
            end <= max_bytes < bytes.len(),
            bytes == encode_utf8(s@),
            forall|i: int| end < i <= max_bytes ==> !is_char_boundary(bytes, i),
        decreases end,
    {
        end -= 1;
    }
    let (prefix, rest) = s.split_at(end);
    proof {
        let p = prefix@;
        let r = rest@;
        encode_utf8_decode_utf8(p);
        encode_utf8_decode_utf8(r);
        valid_utf8_split(bytes, end as int);
        decode_utf8_split(bytes, end as int);
        assert(encode_utf8(p) =~= bytes.subrange(0, end as int));
        assert(encode_utf8(r) =~= bytes.subrange(end as int, bytes.len() as int));
        assert(s@ == p + r);
        if r.len() > 0 {
            let longer = p.push(r[0]);
            assert(s@ =~= longer + r.drop_first());
            lemma_prefix_ends_on_boundary(longer, r.drop_first());
            lemma_encode_concat(p, seq![r[0]]);
            assert(longer =~= p + seq![r[0]]);
            encode_utf8_first_scalar(seq![r[0]]);
            assert(encode_utf8(seq![r[0]]).len() > 0);
        }
        lemma_truncated_is(p, r, max_bytes as nat);
    }
    prefix
}

/// Everything that makes this controller's fabric.
#[derive(Clone, Debug, PartialEq, Eq)]
pub struct ServerIdentity {
    /// The version of the format it is stored in.
    pub version: u32,
    pub fabric_id: u64,
    pub vendor_id: u16,
    pub controller_node_id: u64,
    pub compressed_fabric_id: u64,
    pub ca_private_key: Vec<u8>,
    pub rcac_tlv: Vec<u8>,
    pub controller_private_key: Vec<u8>,
    pub controller_noc_tlv: Vec<u8>,
    pub ipk: Vec<u8>,
}

/// The key material of a freshly minted fabric.
#[derive(Debug, PartialEq, Eq)]
pub struct Minted {
    pub ca_private_key: Vec<u8>,
    pub rcac_tlv: Vec<u8>,
    pub controller_private_key: Vec<u8>,
    pub controller_noc_tlv: Vec<u8>,
    pub ipk: Vec<u8>,
}

/// The identity of a fresh fabric. Its compressed id is not known before it is
/// installed.
pub fn generated_identity(version: u32, fabric_id: u64, vendor_id: u16, minted: Minted) -> (res:
    ServerIdentity)
    ensures
        res == (ServerIdentity {
            version,
            fabric_id,
            vendor_id,
            controller_node_id: CONTROLLER_NODE_ID,
            compressed_fabric_id: 0,
            ca_private_key: minted.ca_private_key,
            rcac_tlv: minted.rcac_tlv,
            controller_private_key: minted.controller_private_key,
            controller_noc_tlv: minted.controller_noc_tlv,
            ipk: minted.ipk,
        }),
        res.controller_node_id == 112233,
{
    ServerIdentity {
        version,
        fabric_id,
        vendor_id,
        controller_node_id: CONTROLLER_NODE_ID,
        compressed_fabric_id: 0,
        ca_private_key: minted.ca_private_key,
        rcac_tlv: minted.rcac_tlv,
        controller_private_key: minted.controller_private_key,
        controller_noc_tlv: minted.controller_noc_tlv,
        ipk: minted.ipk,
    }
}

/// Whether an identity may be installed, given the node id its certificate was
/// issued for: a different one would only show as a failing session later.
pub fn check_installable(id: &ServerIdentity, noc_node_id: Result<u64, SdkError>) -> (res: Result<
    (),
    SdkError,
>)
    ensures
        match noc_node_id {
            Err(e) => res is Err && res->Err_0 == e,
            Ok(n) => if n == id.controller_node_id {
                res is Ok
            } else {
                res is Err && res->Err_0@ == invalid_data()
            },
        },
{
    match noc_node_id {
        Err(e) => Err(e),
        Ok(n) => if n == id.controller_node_id {
            Ok(())
        } else {
            Err(invalid())
        },
    }
}

/// Where the bootstrap of the identity stands, which is also what to do next.
#[derive(Debug, PartialEq, Eq)]
pub enum IdentityState {
    /// Load the stored identity.
    Loading,
    /// Nothing is stored: mint a fabric, and mint again if its root is not usable.
    Generating,
    /// Install the identity as a fabric.
    Installing { identity: ServerIdentity, fresh: bool },
    /// Write the corrected identity back. A failure is only worth a warning.
    Saving { identity: ServerIdentity, fab_idx: u8 },
    /// Write the fresh identity for the first time.
    Creating { identity: ServerIdentity, fab_idx: u8 },
    /// The write failed: take the fabric out again.
    RollingBack { fab_idx: u8, error: SdkError },
    /// Set the fabric's label. A failure is only worth a warning.
    Labelling { identity: ServerIdentity, fab_idx: u8 },
    Ready { identity: ServerIdentity, fab_idx: u8 },
    Failed { error: SdkError },
}

/// What came of the last step.
#[derive(Debug, PartialEq, Eq)]
pub enum IdentityEvent {
    Loaded(Result<Option<ServerIdentity>, SdkError>),
    /// What was minted, if its root is usable.
    Generated(Result<Option<ServerIdentity>, SdkError>),
    /// The fabric index, and the compressed fabric id derived from the keys.
    Installed(Result<(u8, u64), SdkError>),
    Saved,
    Created(Result<(), SdkError>),
    RolledBack,
    Labelled,
}

/// The identity with the compressed id that its keys give.
pub open spec fn with_compressed(id: ServerIdentity, compressed: u64) -> ServerIdentity {
    ServerIdentity { compressed_fabric_id: compressed, ..id }
}

/// What follows a step. An event that does not belong to the state changes
/// nothing.
pub open spec fn next_state(state: IdentityState, event: IdentityEvent) -> IdentityState {
    match (state, event) {
        (IdentityState::Loading, IdentityEvent::Loaded(Err(error))) => IdentityState::Failed {
            error,
        },
        (
            IdentityState::Loading,
            IdentityEvent::Loaded(Ok(Some(identity))),
        ) => IdentityState::Installing { identity, fresh: false },
        (IdentityState::Loading, IdentityEvent::Loaded(Ok(None))) => IdentityState::Generating,
        (IdentityState::Generating, IdentityEvent::Generated(Err(error))) => IdentityState::Failed {
            error,
        },
        (IdentityState::Generating, IdentityEvent::Generated(Ok(None))) => IdentityState::Generating,
        (
            IdentityState::Generating,
            IdentityEvent::Generated(Ok(Some(identity))),
        ) => IdentityState::Installing { identity, fresh: true },
        (
            IdentityState::Installing { identity, fresh },
            IdentityEvent::Installed(Err(error)),
        ) => IdentityState::Failed { error },
        (
            IdentityState::Installing { identity, fresh },
            IdentityEvent::Installed(Ok((fab_idx, compressed))),
        ) => if fresh {
            IdentityState::Creating { identity: with_compressed(identity, compressed), fab_idx }
        } else if compressed != identity.compressed_fabric_id {
            IdentityState::Saving { identity: with_compressed(identity, compressed), fab_idx }
        } else {
            IdentityState::Labelling { identity, fab_idx }
        },
        (
            IdentityState::Saving { identity, fab_idx },
            IdentityEvent::Saved,
        ) => IdentityState::Labelling { identity, fab_idx },
        (
            IdentityState::Creating { identity, fab_idx },
            IdentityEvent::Created(Ok(())),
        ) => IdentityState::Labelling { identity, fab_idx },
        (
            IdentityState::Creating { identity, fab_idx },
            IdentityEvent::Created(Err(error)),
        ) => IdentityState::RollingBack { fab_idx, error },
        (
            IdentityState::RollingBack { fab_idx, error },
            IdentityEvent::RolledBack,
        ) => IdentityState::Failed { error },
        (
            IdentityState::Labelling { identity, fab_idx },
            IdentityEvent::Labelled,
        ) => IdentityState::Ready { identity, fab_idx },
        _ => state,
    }
}

/// Takes the bootstrap one step on.
pub fn ensure_identity(state: IdentityState, event: IdentityEvent) -> (res: IdentityState)
    ensures
        res == next_state(state, event),
{
    match (state, event) {
        (IdentityState::Loading, IdentityEvent::Loaded(Err(error))) => IdentityState::Failed {
            error,
        },
        (
            IdentityState::Loading,
            IdentityEvent::Loaded(Ok(Some(identity))),
        ) => IdentityState::Installing { identity, fresh: false },
        (IdentityState::Loading, IdentityEvent::Loaded(Ok(None))) => IdentityState::Generating,
        (IdentityState::Generating, IdentityEvent::Generated(Err(error))) => IdentityState::Failed {
            error,
        },
        (IdentityState::Generating, IdentityEvent::Generated(Ok(None))) => IdentityState::Generating,
        (
            IdentityState::Generating,
            IdentityEvent::Generated(Ok(Some(identity))),
        ) => IdentityState::Installing { identity, fresh: true },
        (
            IdentityState::Installing { identity, fresh },
            IdentityEvent::Installed(Err(error)),
        ) => IdentityState::Failed { error },
        (
            IdentityState::Installing { identity, fresh },
            IdentityEvent::Installed(Ok((fab_idx, compressed))),
        ) => {
            let mut identity = identity;
            let stale = identity.compressed_fabric_id != compressed;
            identity.compressed_fabric_id = compressed;
            if fresh {
                IdentityState::Creating { identity, fab_idx }
            } else if stale {
                IdentityState::Saving { identity, fab_idx }
            } else {
                IdentityState::Labelling { identity, fab_idx }
            }
        },
        (
            IdentityState::Saving { identity, fab_idx },
            IdentityEvent::Saved,
        ) => IdentityState::Labelling { identity, fab_idx },
        (
            IdentityState::Creating { identity, fab_idx },
            IdentityEvent::Created(Ok(())),
        ) => IdentityState::Labelling { identity, fab_idx },
        (
            IdentityState::Creating { identity, fab_idx },
            IdentityEvent::Created(Err(error)),
        ) => IdentityState::RollingBack { fab_idx, error },
        (
            IdentityState::RollingBack { fab_idx, error },
            IdentityEvent::RolledBack,
        ) => IdentityState::Failed { error },
        (
            IdentityState::Labelling { identity, fab_idx },
            IdentityEvent::Labelled,
        ) => IdentityState::Ready { identity, fab_idx },
        (state, _) => state,
    }
}

/// Where a run of events leads.
pub open spec fn run(state: IdentityState, events: Seq<IdentityEvent>) -> IdentityState
    decreases events.len(),
{
    if events.len() == 0 {
        state
    } else {
        next_state(run(state, events.drop_last()), events.last())
    }
}

/// The identity a state carries.
pub open spec fn carried(state: IdentityState) -> Option<ServerIdentity> {
    match state {
        IdentityState::Installing { identity, .. } => Some(identity),
        IdentityState::Saving { identity, .. } => Some(identity),
        IdentityState::Creating { identity, .. } => Some(identity),
        IdentityState::Labelling { identity, .. } => Some(identity),
        IdentityState::Ready { identity, .. } => Some(identity),
        _ => None,
    }
}

/// A stored identity wins: whatever happens after it was loaded, no fabric is
/// minted, nothing is created, and the identity in use differs from the stored
/// one at most in its compressed id.
pub proof fn stored_identity_wins(stored: ServerIdentity, events: Seq<IdentityEvent>)
    ensures
        ({
            let state = run(
                IdentityState::Installing { identity: stored, fresh: false },
                events,
            );
            &&& !(state is Loading)
            &&& !(state is Generating)
            &&& !(state is Creating)
            &&& !(state is RollingBack)
            &&& state is Installing ==> !state->fresh
            &&& carried(state) is Some ==> carried(state)->0 == with_compressed(
                stored,
                carried(state)->0.compressed_fabric_id,
            )
        }),
    decreases events.len(),
{
    if events.len() > 0 {
        stored_identity_wins(stored, events.drop_last());
    }
}

/// An identity that is stored but cannot be read stops the bootstrap: nothing is
/// minted over it.
pub proof fn unreadable_identity_is_never_replaced(error: SdkError, events: Seq<IdentityEvent>)
    ensures
        run(
            next_state(IdentityState::Loading, IdentityEvent::Loaded(Err(error))),
            events,
        ) == (IdentityState::Failed { error }),
    decreases events.len(),
{
    if events.len() > 0 {
        unreadable_identity_is_never_replaced(error, events.drop_last());
    }
}

/// A fresh fabric that could not be stored is taken out again, and the bootstrap
/// fails: it never comes to be used.
pub proof fn unstored_fabric_is_rolled_back(
    identity: ServerIdentity,
    fab_idx: u8,
    error: SdkError,
    events: Seq<IdentityEvent>,
)
    ensures
        ({
            let state = run(
                next_state(
                    IdentityState::Creating { identity, fab_idx },
                    IdentityEvent::Created(Err(error)),
                ),
                events,
            );
            state == (IdentityState::RollingBack { fab_idx, error }) || state
                == (IdentityState::Failed { error })
        }),
    decreases events.len(),
{
    if events.len() > 0 {
        unstored_fabric_is_rolled_back(identity, fab_idx, error, events.drop_last());
    }
}

/// A fabric is minted again for as long as its root is not usable.
pub proof fn unusable_roots_are_redrawn(events: Seq<IdentityEvent>)
    requires
        forall|i: int|
            0 <= i < events.len() ==> #[trigger] events[i] == IdentityEvent::Generated(Ok(None)),
    ensures
        run(IdentityState::Generating, events) == IdentityState::Generating,
    decreases events.len(),
{
    if events.len() > 0 {
        unusable_roots_are_redrawn(events.drop_last());
        assert(events.last() == events[events.len() - 1]);
    }
}

/// The compressed id in use is the one the keys give, whatever was stored.
pub proof fn derived_compressed_id_wins(
    identity: ServerIdentity,
    fresh: bool,
    fab_idx: u8,
    compressed: u64,
)
    ensures
        carried(
            next_state(
                IdentityState::Installing { identity, fresh },
                IdentityEvent::Installed(Ok((fab_idx, compressed))),
            ),
        ) is Some,
        carried(
            next_state(
                IdentityState::Installing { identity, fresh },
                IdentityEvent::Installed(Ok((fab_idx, compressed))),
            ),
        )->0.compressed_fabric_id == compressed,
{
}

/// The tag of the serial number in a certificate.
pub const SERIAL_TAG: u8 = 1;

/// The contents of a non-negative DER integer: no sign bit, and no leading zero
/// byte that could be left out.
pub open spec fn is_der_canonical(serial: Seq<u8>) -> bool {
    &&& serial.len() > 0
    &&& serial[0] < 0x80
    &&& serial[0] == 0 && serial.len() > 1 ==> serial[1] >= 0x80
}

/// The first member of a struct with this context tag, as far as the members
/// before it can be read.
pub open spec fn find_member(ms: Seq<MemberModel>, tag: u8) -> Result<
    Option<TlvModel>,
    SdkErrorModel,
>
    decreases ms.len(),
{
    if ms.len() == 0 {
        Ok(None)
    } else {
        match ms[0].tag {
            TagModel::Unreadable(e) => Err(e),
            TagModel::Context(n) => if n == tag {
                Ok(Some(ms[0].value))
            } else {
                find_member(ms.skip(1), tag)
            },
            _ => find_member(ms.skip(1), tag),
        }
    }
}

/// Whether the serial number of a certificate is canonical DER. A certificate
/// without one does not parse.
pub open spec fn serial_canonicality(cert: TlvModel) -> Result<bool, SdkErrorModel> {
    match cert {
        TlvModel::Malformed(e) => Err(e),
        TlvModel::Struct(ms) => match find_member(ms, SERIAL_TAG) {
            Err(e) => Err(e),
            Ok(Some(TlvModel::Octets(serial))) => Ok(is_der_canonical(serial)),
            Ok(Some(TlvModel::Malformed(e))) => Err(e),
            Ok(_) => Err(invalid_data()),
        },
        _ => Err(invalid_data()),
    }
}

pub open spec fn canonicality_view(r: Result<bool, SdkError>) -> Result<bool, SdkErrorModel> {
    match r {
        Ok(b) => Ok(b),
        Err(e) => Err(e@),
    }
}

fn der_canonical(serial: &Vec<u8>) -> (res: bool)
    ensures
        res == is_der_canonical(serial@),
{
    serial.len() > 0 && serial[0] < 0x80 && !(serial[0] == 0 && serial.len() > 1 && serial[1]
        < 0x80)
}

/// Whether the serial number of a certificate is canonical DER: peers that
/// re-encode the certificate hash a non-canonical one differently.
pub fn serial_is_der_canonical(cert: &Tlv) -> (res: Result<bool, SdkError>)
    ensures
        canonicality_view(res) == serial_canonicality(cert@),
{
    let ms = match cert {
        Tlv::Malformed(e) => {
            return Err(e.duplicate());
        },
        Tlv::Struct(ms) => ms,
        _ => {
            return Err(invalid());
        },
    };
    let ghost models = member_models(ms@);
    let mut i: usize = 0;
    assert(models.skip(0) =~= models);
    while i < ms.len()
        invariant
            i <= ms@.len(),
            models == member_models(ms@),
            cert@ == TlvModel::Struct(models),
            find_member(models, SERIAL_TAG) == find_member(models.skip(i as int), SERIAL_TAG),
        decreases ms.len() - i,
    {
        assert(models.skip(i as int)[0] == ms@[i as int]@);
        assert(models.skip(i as int).skip(1) =~= models.skip(i + 1));
        match &ms[i].tag {
            Tag::Unreadable(e) => {
                return Err(e.duplicate());
            },
            Tag::Context(n) => {
                if *n == SERIAL_TAG {
                    return match &ms[i].value {
                        Tlv::Octets(serial) => Ok(der_canonical(serial)),
                        Tlv::Malformed(e) => Err(e.duplicate()),
                        _ => Err(invalid()),
                    };
                }
            },
            _ => {},
        }
        i += 1;
    }
    Err(invalid())
}

/// Something that was freshly drawn with a root, if the serial number of that root
/// is canonical.
pub open spec fn kept<T>(drawn: T, root: TlvModel) -> Result<Option<T>, SdkErrorModel> {
    match serial_canonicality(root) {
        Ok(true) => Ok(Some(drawn)),
        Ok(false) => Ok(None),
        Err(e) => Err(e),
    }
}

pub open spec fn kept_view<T>(r: Result<Option<T>, SdkError>) -> Result<Option<T>, SdkErrorModel> {
    match r {
        Ok(v) => Ok(v),
        Err(e) => Err(e@),
    }
}

/// A freshly minted identity, if the serial number of its root is canonical. Half
/// of all roots are not, and are drawn again. That `root` is the element of the
/// identity's root is the caller's to see to.
pub fn usable_identity(identity: ServerIdentity, root: &Tlv) -> (res: Result<
    Option<ServerIdentity>,
    SdkError,
>)
    ensures
        kept_view(res) == kept(identity, root@),
{
    match serial_is_der_canonical(root) {
        Ok(true) => Ok(Some(identity)),
        Ok(false) => Ok(None),
        Err(e) => Err(e),
    }
}

/// A freshly drawn root with its key, if its serial number is canonical; otherwise
/// another is to be drawn. That `root` is the element of `rcac` is the caller's to
/// see to.
pub fn usable_root(key: Vec<u8>, rcac: Vec<u8>, root: &Tlv) -> (res: Result<
    Option<(Vec<u8>, Vec<u8>)>,
    SdkError,
>)
    ensures
        kept_view(res) == kept((key, rcac), root@),
{
    match serial_is_der_canonical(root) {
        Ok(true) => Ok(Some((key, rcac))),
        Ok(false) => Ok(None),
        Err(e) => Err(e),
    }
}

/// What is kept is what was drawn, and its root has a canonical serial number; a
/// root with such a number is never drawn again, one with another always is, and one
/// that does not parse fails with its error.
pub proof fn kept_roots_are_canonical<T>(drawn: T, root: TlvModel)
    ensures
        kept(drawn, root) matches Ok(Some(v)) ==> v == drawn && serial_canonicality(root)
            == Ok::<bool, SdkErrorModel>(true),
        serial_canonicality(root) == Ok::<bool, SdkErrorModel>(true) ==> kept(drawn, root) == Ok::<
            Option<T>,
            SdkErrorModel,
        >(Some(drawn)),
        serial_canonicality(root) == Ok::<bool, SdkErrorModel>(false) ==> kept(drawn, root)
            == Ok::<Option<T>, SdkErrorModel>(None),
        serial_canonicality(root) is Err ==> kept(drawn, root) is Err && kept(drawn, root)->Err_0
            == serial_canonicality(root)->Err_0,
{
}

/// A text is cut to a beginning of it that fits in the given bytes, and to no less
/// than can be kept: no longer beginning fits.
pub proof fn texts_are_cut_to_the_longest_fit(s: Seq<char>, max: nat, n: int)
    requires
        0 <= n <= s.len(),
    ensures
        truncated(s, max).is_prefix_of(s),
        encode_utf8(truncated(s, max)).len() <= max,
        encode_utf8(s).len() <= max ==> truncated(s, max) == s,
        encode_utf8(s.take(n)).len() <= max ==> n <= truncated(s, max).len(),
    decreases s.len(),
{
    if s.len() == 0 {
        assert(encode_utf8(s) =~= Seq::empty());
        assert(s =~= s.subrange(0, 0));
    } else if fits(s, max) {
        assert(s =~= s.subrange(0, s.len() as int));
    } else {
        let shorter = s.drop_last();
        if n == s.len() {
            assert(s.take(n) =~= s);
            texts_are_cut_to_the_longest_fit(shorter, max, 0);
        } else {
            assert(shorter.take(n) =~= s.take(n));
            texts_are_cut_to_the_longest_fit(shorter, max, n);
        }
        let t = truncated(s, max);
        assert(t =~= s.subrange(0, t.len() as int)) by {
            assert(t == shorter.subrange(0, t.len() as int));
        }
    }
}

/// A serial number is canonical where it is not negative, and could not do without
/// its first byte: that is all there is, or not zero, or keeps the next from being a
/// sign.
pub proof fn canonical_serials_are_as_short_as_can_be(serial: Seq<u8>)
    ensures
        is_der_canonical(serial) <==> serial.len() > 0 && serial[0] as int / 128 == 0 && (
        serial.len() == 1 || serial[0] > 0 || serial[1] as int / 128 == 1),
{
}

proof fn lemma_find_member(ms: Seq<MemberModel>, tag: u8, at: int)
    requires
        0 <= at <= ms.len(),
        forall|i: int|
            0 <= i < at ==> (#[trigger] ms[i]).tag !is Unreadable && ms[i].tag
                != TagModel::Context(tag),
        at < ms.len() ==> ms[at].tag is Unreadable || ms[at].tag == TagModel::Context(tag),
    ensures
        at == ms.len() ==> find_member(ms, tag) == Ok::<Option<TlvModel>, SdkErrorModel>(None),
        at < ms.len() ==> find_member(ms, tag) == if ms[at].tag is Unreadable {
            Err::<Option<TlvModel>, SdkErrorModel>(ms[at].tag->Unreadable_0)
        } else {
            Ok(Some(ms[at].value))
        },
    decreases at,
{
    if at > 0 {
        let rest = ms.skip(1);
        assert(ms[0].tag !is Unreadable);
        assert forall|i: int| 0 <= i < at - 1 implies (#[trigger] rest[i]).tag !is Unreadable
            && rest[i].tag != TagModel::Context(tag) by {
            assert(rest[i] == ms[i + 1]);
        }
        if at < ms.len() {
            assert(rest[at - 1] == ms[at]);
        }
        lemma_find_member(rest, tag, at - 1);
    }
}

/// The serial number of a certificate is the first member under context tag 1, and
/// it has to be there and to be octets; a member before it whose tag cannot be read
/// is what reading it fails with. `at` is where either stands first, or the end.
pub proof fn serials_are_read_by_tag(ms: Seq<MemberModel>, at: int)
    requires
        0 <= at <= ms.len(),
        forall|i: int|
            0 <= i < at ==> (#[trigger] ms[i]).tag !is Unreadable && ms[i].tag
                != TagModel::Context(1),
        at < ms.len() ==> ms[at].tag is Unreadable || ms[at].tag == TagModel::Context(1),
    ensures
        ({
            let told = serial_canonicality(TlvModel::Struct(ms));
            &&& at == ms.len() ==> told is Err && told->Err_0.code is InvalidData
            &&& at < ms.len() && ms[at].tag is Unreadable ==> told == Err::<bool, SdkErrorModel>(
                ms[at].tag->Unreadable_0,
            )
            &&& at < ms.len() && ms[at].tag is Context ==> match ms[at].value {
                TlvModel::Octets(serial) => told == Ok::<bool, SdkErrorModel>(
                    is_der_canonical(serial),
                ),
                TlvModel::Malformed(e) => told == Err::<bool, SdkErrorModel>(e),
                _ => told is Err && told->Err_0.code is InvalidData,
            }
        }),
{
    lemma_find_member(ms, 1, at);
}

/// Only a struct is a certificate; an element that cannot be read fails with its own
/// error.
pub proof fn only_structs_are_certificates(t: TlvModel, e: SdkErrorModel)
    ensures
        t !is Struct && t !is Malformed ==> serial_canonicality(t) is Err && serial_canonicality(
            t,
        )->Err_0.code is InvalidData,
        serial_canonicality(TlvModel::Malformed(e)) == Err::<bool, SdkErrorModel>(e),
{
}

/// A first run mints an identity, installs it, stores it and labels it, and comes to
/// be ready with that identity, its compressed id filled in; a later run does the
/// same with the stored one, which it stores again only where the compressed id was
/// another.
pub proof fn bootstraps_end_ready(id: ServerIdentity, fab_idx: u8, compressed: u64)
    ensures
        ({
            let state = run(
                IdentityState::Loading,
                seq![
                    IdentityEvent::Loaded(Ok(None)),
                    IdentityEvent::Generated(Ok(Some(id))),
                    IdentityEvent::Installed(Ok((fab_idx, compressed))),
                    IdentityEvent::Created(Ok(())),
                    IdentityEvent::Labelled,
                ],
            );
            is_ready(state, id, fab_idx, compressed)
        }),
        compressed != id.compressed_fabric_id ==> is_ready(
            run(
                IdentityState::Loading,
                seq![
                    IdentityEvent::Loaded(Ok(Some(id))),
                    IdentityEvent::Installed(Ok((fab_idx, compressed))),
                    IdentityEvent::Saved,
                    IdentityEvent::Labelled,
                ],
            ),
            id,
            fab_idx,
            compressed,
        ),
        compressed == id.compressed_fabric_id ==> is_ready(
            run(
                IdentityState::Loading,
                seq![
                    IdentityEvent::Loaded(Ok(Some(id))),
                    IdentityEvent::Installed(Ok((fab_idx, compressed))),
                    IdentityEvent::Labelled,
                ],
            ),
            id,
            fab_idx,
            compressed,
        ),
{
    let loaded = IdentityEvent::Loaded(Ok(None));
    let minted = IdentityEvent::Generated(Ok(Some(id)));
    let stored = IdentityEvent::Loaded(Ok(Some(id)));
    let installed = IdentityEvent::Installed(Ok((fab_idx, compressed)));
    let created = IdentityEvent::Created(Ok(()));
    let start = IdentityState::Loading;
    assert(run(start, Seq::empty()) == start);
    lemma_run_step(start, Seq::empty(), loaded);
    lemma_run_step(start, seq![loaded], minted);
    lemma_run_step(start, seq![loaded, minted], installed);
    lemma_run_step(start, seq![loaded, minted, installed], created);
    lemma_run_step(start, seq![loaded, minted, installed, created], IdentityEvent::Labelled);
    lemma_run_step(start, Seq::empty(), stored);
    lemma_run_step(start, seq![stored], installed);
    lemma_run_step(start, seq![stored, installed], IdentityEvent::Saved);
    lemma_run_step(start, seq![stored, installed], IdentityEvent::Labelled);
    lemma_run_step(start, seq![stored, installed, IdentityEvent::Saved], IdentityEvent::Labelled);
    assert(Seq::<IdentityEvent>::empty().push(loaded) =~= seq![loaded]);
    assert(Seq::<IdentityEvent>::empty().push(stored) =~= seq![stored]);
    assert(seq![loaded].push(minted) =~= seq![loaded, minted]);
    assert(seq![loaded, minted].push(installed) =~= seq![loaded, minted, installed]);
    assert(seq![loaded, minted, installed].push(created) =~= seq![
        loaded,
        minted,
        installed,
        created,
    ]);
    assert(seq![loaded, minted, installed, created].push(IdentityEvent::Labelled) =~= seq![
        loaded,
        minted,
        installed,
        created,
        IdentityEvent::Labelled,
    ]);
    assert(seq![stored].push(installed) =~= seq![stored, installed]);
    assert(seq![stored, installed].push(IdentityEvent::Saved) =~= seq![
        stored,
        installed,
        IdentityEvent::Saved,
    ]);
    assert(seq![stored, installed].push(IdentityEvent::Labelled) =~= seq![
        stored,
        installed,
        IdentityEvent::Labelled,
    ]);
    assert(seq![stored, installed, IdentityEvent::Saved].push(IdentityEvent::Labelled) =~= seq![
        stored,
        installed,
        IdentityEvent::Saved,
        IdentityEvent::Labelled,
    ]);
}

/// Ready with this identity, under this compressed id, as the fabric of this index.
pub open spec fn is_ready(
    state: IdentityState,
    id: ServerIdentity,
    index: u8,
    compressed: u64,
) -> bool {
    match state {
        IdentityState::Ready { identity, fab_idx } => {
            &&& fab_idx == index
            &&& identity.compressed_fabric_id == compressed
            &&& identity.version == id.version
            &&& identity.fabric_id == id.fabric_id
            &&& identity.vendor_id == id.vendor_id
            &&& identity.controller_node_id == id.controller_node_id
            &&& identity.ca_private_key == id.ca_private_key
            &&& identity.rcac_tlv == id.rcac_tlv
            &&& identity.controller_private_key == id.controller_private_key
            &&& identity.controller_noc_tlv == id.controller_noc_tlv
            &&& identity.ipk == id.ipk
        },
        _ => false,
    }
}

proof fn lemma_run_step(state: IdentityState, events: Seq<IdentityEvent>, event: IdentityEvent)
    ensures
        run(state, events.push(event)) == next_state(run(state, events), event),
{
    assert(events.push(event).drop_last() =~= events);
}

/// A step that fails ends the bootstrap with its error, and nothing that follows
/// changes that; a bootstrap that is ready stays as it is.
pub proof fn bootstraps_end_for_good(
    id: ServerIdentity,
    fresh: bool,
    fab_idx: u8,
    error: SdkError,
    event: IdentityEvent,
)
    ensures
        next_state(IdentityState::Generating, IdentityEvent::Generated(Err(error)))
            == (IdentityState::Failed { error }),
        next_state(
            IdentityState::Installing { identity: id, fresh },
            IdentityEvent::Installed(Err(error)),
        ) == (IdentityState::Failed { error }),
        next_state(IdentityState::RollingBack { fab_idx, error }, IdentityEvent::RolledBack)
            == (IdentityState::Failed { error }),
        next_state(IdentityState::Failed { error }, event) == (IdentityState::Failed { error }),
        next_state(IdentityState::Ready { identity: id, fab_idx }, event)
            == (IdentityState::Ready { identity: id, fab_idx }),
{
}

/// What is stored is installed as it is, and minted where nothing is; what is minted
/// is created in storage once it is installed, what was stored is saved again where
/// its compressed id was another, and either is labelled after that.
pub proof fn installed_identities_are_stored(id: ServerIdentity, fab_idx: u8, compressed: u64)
    ensures
        next_state(IdentityState::Loading, IdentityEvent::Loaded(Ok(None)))
            == IdentityState::Generating,
        next_state(IdentityState::Loading, IdentityEvent::Loaded(Ok(Some(id))))
            == (IdentityState::Installing { identity: id, fresh: false }),
        next_state(IdentityState::Generating, IdentityEvent::Generated(Ok(Some(id))))
            == (IdentityState::Installing { identity: id, fresh: true }),
        ({
            let installed = IdentityEvent::Installed(Ok((fab_idx, compressed)));
            let fresh = next_state(
                IdentityState::Installing { identity: id, fresh: true },
                installed,
            );
            let stored = next_state(
                IdentityState::Installing { identity: id, fresh: false },
                installed,
            );
            &&& fresh is Creating
            &&& stored is Saving <==> compressed != id.compressed_fabric_id
            &&& stored is Labelling <==> compressed == id.compressed_fabric_id
            &&& fresh->Creating_fab_idx == fab_idx
            &&& stored is Saving ==> stored->Saving_fab_idx == fab_idx
            &&& stored is Labelling ==> stored->Labelling_fab_idx == fab_idx
        }),
        next_state(IdentityState::Saving { identity: id, fab_idx }, IdentityEvent::Saved)
            == (IdentityState::Labelling { identity: id, fab_idx }),
        next_state(IdentityState::Creating { identity: id, fab_idx }, IdentityEvent::Created(Ok(())))
            == (IdentityState::Labelling { identity: id, fab_idx }),
        next_state(IdentityState::Labelling { identity: id, fab_idx }, IdentityEvent::Labelled)
            == (IdentityState::Ready { identity: id, fab_idx }),
{
}

/// An event that does not belong to the step at hand changes nothing.
pub proof fn stray_events_change_nothing(state: IdentityState, event: IdentityEvent)
    requires
        state is Loading ==> event !is Loaded,
        state is Generating ==> event !is Generated,
        state is Installing ==> event !is Installed,
        state is Saving ==> event !is Saved,
        state is Creating ==> event !is Created,
        state is RollingBack ==> event !is RolledBack,
        state is Labelling ==> event !is Labelled,
    ensures
        next_state(state, event) == state,
{
}

} // verus!
