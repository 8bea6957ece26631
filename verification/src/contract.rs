use vstd::prelude::*;

verus! {

/// The length of a node public key: a compressed secp256k1 point.
pub const NODE_PUBLIC_KEY_LEN: usize = 33;

/// An operator of a validator's committee, as the staking contract lists it.
#[derive(Clone, Debug, PartialEq, Eq)]
pub struct Operator {
    pub id: u64,
    /// The operator node's public key, `NODE_PUBLIC_KEY_LEN` bytes when well formed.
    pub node_public_key: Vec<u8>,
    /// The operator's share of the validator's BLS public key.
    pub shared_public_key: Vec<u8>,
    /// The operator's share of the validator's secret key, encrypted to the operator node.
    pub encrypted_key: Vec<u8>,
}

pub struct OperatorView {
    pub id: u64,
    pub node_public_key: Seq<u8>,
    pub shared_public_key: Seq<u8>,
    pub encrypted_key: Seq<u8>,
}

impl View for Operator {
    type V = OperatorView;

    open spec fn view(&self) -> OperatorView {
        OperatorView {
            id: self.id,
            node_public_key: self.node_public_key@,
            shared_public_key: self.shared_public_key@,
            encrypted_key: self.encrypted_key@,
        }
    }
}

/// A validator registered with the staking contract.
#[derive(Clone, Debug, PartialEq, Eq)]
pub struct Validator {
    pub id: u64,
    /// The validator's BLS public key, in its compressed encoding.
    pub validator_public_key: Vec<u8>,
}

pub struct ValidatorView {
    pub id: u64,
    pub validator_public_key: Seq<u8>,
}

impl View for Validator {
    type V = ValidatorView;

    open spec fn view(&self) -> ValidatorView {
        ValidatorView { id: self.id, validator_public_key: self.validator_public_key@ }
    }
}

/// What the contract listener asks the node to do with a validator.
#[derive(Clone, Debug, PartialEq, Eq)]
pub enum ValidatorCommand {
    Start(Validator),
    Stop(Validator),
}

/// The operators of a list, each by its view.
pub open spec fn operator_views(ops: Seq<Operator>) -> Seq<OperatorView> {
    ops.map_values(|o: Operator| o@)
}

} // verus!
