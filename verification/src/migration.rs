//! An identity for a fabric whose certificate authority is preserved from
//! another controller.

use crate::ctx::{sdk_message, sdk_text};
use crate::error::{SdkError, SdkErrorModel};
use crate::identity::{serial_canonicality, serial_is_der_canonical, ServerIdentity};
use crate::stack_api::{StackError, StackErrorKind, StackErrorModel};
use crate::text::{decimal, decimal_string};
use crate::tlv::Tlv;
use crate::tlv_json::MATTER_EPOCH_OFFSET_S;
use vstd::prelude::*;

verus! {

pub const NOT_A_CERTIFICATE: &'static str = "rcac_tlv does not parse as a Matter TLV certificate";

pub open spec fn sdk_failure(context: Seq<char>, e: SdkErrorModel) -> StackErrorModel {
    StackErrorModel { kind: StackErrorKind::Sdk, message: context + ": "@ + sdk_message(e) }
}

/// An SDK error, with what was being done when it came.
pub fn sdk_err(context: &str, e: SdkError) -> (res: StackError)
    ensures
        res@ == sdk_failure(context@, e@),
{
    let mut message = context.to_owned();
    message.append(": ");
    let text = sdk_text(&e);
    message.append(text.as_str());
    StackError::new(StackErrorKind::Sdk, message)
}

/// What the subject of the preserved root says: its fabric id, if it can be read,
/// and whether its authority id can.
#[derive(Debug, PartialEq, Eq)]
pub struct RootSubject {
    pub fabric_id: Result<u64, SdkError>,
    pub has_ca_id: bool,
}

pub open spec fn wrong_fabric(found: u64, wanted: u64) -> StackErrorModel {
    StackErrorModel {
        kind: StackErrorKind::Sdk,
        message: "the preserved RCAC carries fabric id "@ + decimal(found as nat)
            + ", not the requested "@ + decimal(wanted as nat),
    }
}

/// What is wrong with a preserved root. One that names no fabric is fine; one
/// that names another is not, and one that names neither a fabric nor an
/// authority is no certificate.
pub open spec fn root_problem(root: RootSubject, fabric_id: u64) -> Option<StackErrorModel> {
    match root.fabric_id {
        Ok(found) => if found == fabric_id {
            None
        } else {
            Some(wrong_fabric(found, fabric_id))
        },
        Err(e) => if root.has_ca_id {
            None
        } else {
            Some(sdk_failure(NOT_A_CERTIFICATE@, e@))
        },
    }
}

/// Whether a preserved root can serve the fabric it is wanted for.
pub fn check_preserved_root(root: RootSubject, fabric_id: u64) -> (res: Result<(), StackError>)
    ensures
        match root_problem(root, fabric_id) {
            None => res is Ok,
            Some(e) => res is Err && res->Err_0@ == e,
        },
{
    match root.fabric_id {
        Ok(found) => if found == fabric_id {
            Ok(())
        } else {
            let mut message = "the preserved RCAC carries fabric id ".to_owned();
            let a = decimal_string(found);
            message.append(a.as_str());
            message.append(", not the requested ");
            let b = decimal_string(fabric_id);
            message.append(b.as_str());
            Err(StackError::new(StackErrorKind::Sdk, message))
        },
        Err(e) => if root.has_ca_id {
            Ok(())
        } else {
            Err(sdk_err(NOT_A_CERTIFICATE, e))
        },
    }
}

/// The steps of minting the controller's certificate under a preserved root.
#[derive(Clone, Copy, Debug, PartialEq, Eq, Structural)]
pub enum MintStep {
    CaKey,
    KeyPair,
    Csr,
    SerialiseKey,
    NocGenerator,
    Noc,
    Ipk,
    Install,
}

impl MintStep {
    /// How a failure of the step is described.
    pub fn context(self) -> (res: &'static str)
        ensures
            res@ == self.description(),
    {
        match self {
            MintStep::CaKey => "ca_private_key is not a canonical P-256 secret key",
            MintStep::KeyPair => "generating the controller key pair",
            MintStep::Csr => "building the controller CSR",
            MintStep::SerialiseKey => "serialising the controller key",
            MintStep::NocGenerator => "preparing the NOC generator over the preserved CA",
            MintStep::Noc => "minting the controller NOC",
            MintStep::Ipk => "ipk_epoch_key is not a 16-byte AEAD key",
            MintStep::Install => "installing the preserved fabric",
        }
    }

    pub open spec fn description(self) -> Seq<char> {
        match self {
            MintStep::CaKey => "ca_private_key is not a canonical P-256 secret key"@,
            MintStep::KeyPair => "generating the controller key pair"@,
            MintStep::Csr => "building the controller CSR"@,
            MintStep::SerialiseKey => "serialising the controller key"@,
            MintStep::NocGenerator => "preparing the NOC generator over the preserved CA"@,
            MintStep::Noc => "minting the controller NOC"@,
            MintStep::Ipk => "ipk_epoch_key is not a 16-byte AEAD key"@,
            MintStep::Install => "installing the preserved fabric"@,
        }
    }
}

/// The preserved authority and what it is wanted for.
#[derive(Debug, PartialEq, Eq)]
pub struct PreservedCa {
    pub ca_private_key: Vec<u8>,
    pub rcac_tlv: Vec<u8>,
    pub fabric_id: u64,
    pub vendor_id: u16,
    pub node_id: u64,
    pub ipk_epoch_key: Vec<u8>,
}

/// What minting under it gave.
#[derive(Debug, PartialEq, Eq)]
pub struct MintedController {
    pub private_key: Vec<u8>,
    pub noc_tlv: Vec<u8>,
    pub compressed_fabric_id: u64,
}

/// The identity of a preserved fabric: the preserved inputs as they are, and the
/// minted key and certificate.
pub open spec fn preserved_identity(
    version: u32,
    ca: PreservedCa,
    minted: MintedController,
) -> ServerIdentity {
    ServerIdentity {
        version,
        fabric_id: ca.fabric_id,
        vendor_id: ca.vendor_id,
        controller_node_id: ca.node_id,
        compressed_fabric_id: minted.compressed_fabric_id,
        ca_private_key: ca.ca_private_key,
        rcac_tlv: ca.rcac_tlv,
        controller_private_key: minted.private_key,
        controller_noc_tlv: minted.noc_tlv,
        ipk: ca.ipk_epoch_key,
    }
}

/// What a verification of a certificate chain found: the node id the certificate
/// was issued for, whether it chains to the root, and whether the root verifies.
#[derive(Debug, PartialEq, Eq)]
pub struct ChainFindings {
    pub noc_node_id: Result<u64, SdkError>,
    pub chains: Result<(), SdkError>,
    pub root_verifies: Result<(), SdkError>,
}

pub open spec fn wrong_subject(found: u64, wanted: u64) -> StackErrorModel {
    StackErrorModel {
        kind: StackErrorKind::Sdk,
        message: "the minted NOC's subject node id "@ + decimal(found as nat)
            + " does not match controller_node_id "@ + decimal(wanted as nat),
    }
}

/// The first thing wrong with an identity, if anything is.
pub open spec fn identity_problem(controller_node_id: u64, f: ChainFindings) -> Option<
    StackErrorModel,
> {
    match f.noc_node_id {
        Err(e) => Some(
            sdk_failure("controller_noc_tlv does not parse as a Matter TLV certificate"@, e@),
        ),
        Ok(found) => if found != controller_node_id {
            Some(wrong_subject(found, controller_node_id))
        } else {
            match f.chains {
                Err(e) => Some(sdk_failure("the controller NOC does not chain to the RCAC"@, e@)),
                Ok(()) => match f.root_verifies {
                    Err(e) => Some(sdk_failure("the RCAC did not verify as a chain root"@, e@)),
                    Ok(()) => None,
                },
            }
        },
    }
}

/// Whether the stored certificate proves the stored identity.
pub fn verify_identity(id: &ServerIdentity, findings: ChainFindings) -> (res: Result<
    (),
    StackError,
>)
    ensures
        match identity_problem(id.controller_node_id, findings) {
            None => res is Ok,
            Some(e) => res is Err && res->Err_0@ == e,
        },
{
    match findings.noc_node_id {
        Err(e) => {
            return Err(
                sdk_err("controller_noc_tlv does not parse as a Matter TLV certificate", e),
            );
        },
        Ok(found) => {
            if found != id.controller_node_id {
                let mut message = "the minted NOC's subject node id ".to_owned();
                let a = decimal_string(found);
                message.append(a.as_str());
                message.append(" does not match controller_node_id ");
                let b = decimal_string(id.controller_node_id);
                message.append(b.as_str());
                return Err(StackError::new(StackErrorKind::Sdk, message));
            }
        },
    }
    if let Err(e) = findings.chains {
        return Err(sdk_err("the controller NOC does not chain to the RCAC", e));
    }
    if let Err(e) = findings.root_verifies {
        return Err(sdk_err("the RCAC did not verify as a chain root", e));
    }
    Ok(())
}

/// An identity for a preserved fabric, from what reading its root, minting under
/// it and verifying the result came to. The first failure decides. `version` is
/// that of the format identities are stored in.
pub fn identity_from_preserved_ca(
    version: u32,
    ca: PreservedCa,
    root: RootSubject,
    minted: Result<MintedController, (MintStep, SdkError)>,
    findings: ChainFindings,
) -> (res: Result<ServerIdentity, StackError>)
    ensures
        match root_problem(root, ca.fabric_id) {
            Some(e) => res is Err && res->Err_0@ == e,
            None => match minted {
                Err((step, e)) => res is Err && res->Err_0@ == sdk_failure(step.description(), e@),
                Ok(m) => match identity_problem(ca.node_id, findings) {
                    Some(e) => res is Err && res->Err_0@ == e,
                    None => {
                        &&& res == Ok::<ServerIdentity, StackError>(
                            preserved_identity(version, ca, m),
                        )
                        &&& res->Ok_0.version == version
                        &&& res->Ok_0.fabric_id == ca.fabric_id
                        &&& res->Ok_0.vendor_id == ca.vendor_id
                        &&& res->Ok_0.controller_node_id == ca.node_id
                        &&& res->Ok_0.compressed_fabric_id == m.compressed_fabric_id
                        &&& res->Ok_0.ca_private_key == ca.ca_private_key
                        &&& res->Ok_0.rcac_tlv == ca.rcac_tlv
                        &&& res->Ok_0.controller_private_key == m.private_key
                        &&& res->Ok_0.controller_noc_tlv == m.noc_tlv
                        &&& res->Ok_0.ipk == ca.ipk_epoch_key
                    },
                },
            },
        },
{
    if let Err(e) = check_preserved_root(root, ca.fabric_id) {
        return Err(e);
    }
    let minted = match minted {
        Ok(minted) => minted,
        Err((step, e)) => {
            return Err(sdk_err(step.context(), e));
        },
    };
    let identity = ServerIdentity {
        version,
        fabric_id: ca.fabric_id,
        vendor_id: ca.vendor_id,
        controller_node_id: ca.node_id,
        compressed_fabric_id: minted.compressed_fabric_id,
        ca_private_key: ca.ca_private_key,
        rcac_tlv: ca.rcac_tlv,
        controller_private_key: minted.private_key,
        controller_noc_tlv: minted.noc_tlv,
        ipk: ca.ipk_epoch_key,
    };
    match verify_identity(&identity, findings) {
        Ok(()) => Ok(identity),
        Err(e) => Err(e),
    }
}

/// Microseconds since the Matter epoch, at the given Unix second; 0 before it.
pub fn matter_micros(unix_secs: u64) -> (res: u64)
    requires
        (unix_secs - MATTER_EPOCH_OFFSET_S) * 1_000_000 <= u64::MAX,
    ensures
        res == (if unix_secs >= MATTER_EPOCH_OFFSET_S {
            (unix_secs - MATTER_EPOCH_OFFSET_S) * 1_000_000
        } else {
            0
        }),
        unix_secs >= 946_684_800 ==> res == (unix_secs - 946_684_800) * 1_000_000,
        unix_secs < 946_684_800 ==> res == 0,
{
    if unix_secs >= MATTER_EPOCH_OFFSET_S {
        (unix_secs - MATTER_EPOCH_OFFSET_S) * 1_000_000
    } else {
        0
    }
}

/// Whether the serial number of a root is canonical DER.
pub fn rcac_serial_is_der_canonical(rcac: &Tlv) -> (res: Result<bool, StackError>)
    ensures
        match serial_canonicality(rcac@) {
            Ok(b) => res == Ok::<bool, StackError>(b),
            Err(e) => res is Err && res->Err_0@ == sdk_failure(NOT_A_CERTIFICATE@, e),
        },
{
    match serial_is_der_canonical(rcac) {
        Ok(b) => Ok(b),
        Err(e) => Err(sdk_err(NOT_A_CERTIFICATE, e)),
    }
}

/// A preserved root serves the fabric it names, and one that names none but does name
/// its authority serves any; one that names another fabric, or nothing, serves none.
pub proof fn roots_serve_the_fabric_they_name(root: RootSubject, fabric_id: u64)
    ensures
        root_problem(root, fabric_id) is None <==> root.fabric_id == Ok::<u64, SdkError>(fabric_id)
            || (root.fabric_id is Err && root.has_ca_id),
        root_problem(root, fabric_id) is Some ==> root_problem(root, fabric_id)->0.kind is Sdk,
        root.fabric_id is Ok && root.fabric_id->Ok_0 != fabric_id ==> root_problem(
            root,
            fabric_id,
        )->0.message == "the preserved RCAC carries fabric id "@ + decimal(
            root.fabric_id->Ok_0 as nat,
        ) + ", not the requested "@ + decimal(fabric_id as nat),
        root.fabric_id is Err && !root.has_ca_id ==> root_problem(root, fabric_id)->0.message
            == "rcac_tlv does not parse as a Matter TLV certificate"@ + ": "@ + ("Error::"@
            + root.fabric_id->Err_0.text@),
{
}

/// An identity is sound exactly where its certificate was issued for its node, chains
/// to its root, and the root verifies; the first of these that does not hold is what
/// is told.
pub proof fn sound_identities_have_no_problem(node_id: u64, f: ChainFindings)
    ensures
        identity_problem(node_id, f) is None <==> f.noc_node_id == Ok::<u64, SdkError>(node_id)
            && f.chains is Ok && f.root_verifies is Ok,
        identity_problem(node_id, f) is Some ==> identity_problem(node_id, f)->0.kind is Sdk,
        f.noc_node_id is Err ==> identity_problem(node_id, f)->0.message
            == "controller_noc_tlv does not parse as a Matter TLV certificate"@ + ": "@ + (
        "Error::"@ + f.noc_node_id->Err_0.text@),
        f.noc_node_id is Ok && f.noc_node_id->Ok_0 != node_id ==> identity_problem(
            node_id,
            f,
        )->0.message == "the minted NOC's subject node id "@ + decimal(f.noc_node_id->Ok_0 as nat)
            + " does not match controller_node_id "@ + decimal(node_id as nat),
        f.noc_node_id == Ok::<u64, SdkError>(node_id) && f.chains is Err ==> identity_problem(
            node_id,
            f,
        )->0.message == "the controller NOC does not chain to the RCAC"@ + ": "@ + ("Error::"@
            + f.chains->Err_0.text@),
        f.noc_node_id == Ok::<u64, SdkError>(node_id) && f.chains is Ok && f.root_verifies is Err
            ==> identity_problem(node_id, f)->0.message
            == "the RCAC did not verify as a chain root"@ + ": "@ + ("Error::"@
            + f.root_verifies->Err_0.text@),
{
}

/// Each step of minting has its own description, and a failure tells it before the
/// error.
pub proof fn failed_steps_are_described(context: Seq<char>, e: SdkErrorModel)
    ensures
        sdk_failure(context, e) == (StackErrorModel {
            kind: StackErrorKind::Sdk,
            message: context + ": "@ + ("Error::"@ + e.text),
        }),
        MintStep::CaKey.description() == "ca_private_key is not a canonical P-256 secret key"@,
        MintStep::KeyPair.description() == "generating the controller key pair"@,
        MintStep::Csr.description() == "building the controller CSR"@,
        MintStep::SerialiseKey.description() == "serialising the controller key"@,
        MintStep::NocGenerator.description()
            == "preparing the NOC generator over the preserved CA"@,
        MintStep::Noc.description() == "minting the controller NOC"@,
        MintStep::Ipk.description() == "ipk_epoch_key is not a 16-byte AEAD key"@,
        MintStep::Install.description() == "installing the preserved fabric"@,
{
}

} // verus!
