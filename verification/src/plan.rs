use vstd::prelude::*;

use crate::contract::{OperatorView, ValidatorView, NODE_PUBLIC_KEY_LEN};
use crate::keys::base64_standard;
use crate::names::{decimal, password_file_name};
use crate::net::{IpAddress, SocketAddress};

verus! {

/// The number of operator signatures that a validator's committee needs.
pub const THRESHOLD: u64 = 3;

/// A key share that this node holds for a validator: the operator entry that
/// names this node, whose encrypted key the node decrypts and stores.
#[derive(Clone, Debug, PartialEq, Eq)]
pub struct OwnShare {
    pub operator_id: u64,
    pub encrypted_key: Vec<u8>,
}

pub struct OwnShareView {
    pub operator_id: u64,
    pub encrypted_key: Seq<u8>,
}

impl View for OwnShare {
    type V = OwnShareView;

    open spec fn view(&self) -> OwnShareView {
        OwnShareView { operator_id: self.operator_id, encrypted_key: self.encrypted_key@ }
    }
}

/// The committee of operators that runs a validator.
#[derive(Clone, Debug, PartialEq, Eq)]
pub struct CommitteeDefinition {
    pub total: u64,
    pub threshold: u64,
    pub validator_id: u64,
    pub validator_public_key: Vec<u8>,
    pub operator_ids: Vec<u64>,
    pub operator_public_keys: Vec<Vec<u8>>,
    pub node_public_keys: Vec<Vec<u8>>,
    pub base_socket_addresses: Vec<SocketAddress>,
}

pub struct CommitteeView {
    pub total: u64,
    pub threshold: u64,
    pub validator_id: u64,
    pub validator_public_key: Seq<u8>,
    pub operator_ids: Seq<u64>,
    pub operator_public_keys: Seq<Seq<u8>>,
    pub node_public_keys: Seq<Seq<u8>>,
    pub base_socket_addresses: Seq<SocketAddress>,
}

impl View for CommitteeDefinition {
    type V = CommitteeView;

    open spec fn view(&self) -> CommitteeView {
        CommitteeView {
            total: self.total,
            threshold: self.threshold,
            validator_id: self.validator_id,
            validator_public_key: self.validator_public_key@,
            operator_ids: self.operator_ids@,
            operator_public_keys: byte_string_views(self.operator_public_keys@),
            node_public_keys: byte_string_views(self.node_public_keys@),
            base_socket_addresses: self.base_socket_addresses@,
        }
    }
}

/// Each byte string of a list, by its view.
pub open spec fn byte_string_views(v: Seq<Vec<u8>>) -> Seq<Seq<u8>> {
    v.map_values(|b: Vec<u8>| b@)
}

/// What the node does with a request to start a validator.
#[derive(Clone, Debug, PartialEq, Eq)]
pub enum StartOutcome {
    /// The validator's directory exists already: nothing is done.
    AlreadyPresent,
    /// The contract has told the node of no operators for the validator.
    OperatorsUnknown,
    /// The operator at `operator_index` was discovered but its node key is
    /// not `NODE_PUBLIC_KEY_LEN` bytes long: the node decrypts `own_shares` and then fails.
    MalformedNodeKey { operator_index: usize, own_shares: Vec<OwnShare> },
    /// The operator at `operator_index` is not discovered yet: the node
    /// decrypts `own_shares`, waits and asks for the validator to be started again.
    Retry { operator_index: usize, own_shares: Vec<OwnShare> },
    /// Every operator is discovered: the node decrypts `own_shares`, writes
    /// the committee definition and registers the validator.
    Launch { committee: CommitteeDefinition, own_shares: Vec<OwnShare> },
}

pub enum StartOutcomeView {
    AlreadyPresent,
    OperatorsUnknown,
    MalformedNodeKey { operator_index: int, own_shares: Seq<OwnShareView> },
    Retry { operator_index: int, own_shares: Seq<OwnShareView> },
    Launch { committee: CommitteeView, own_shares: Seq<OwnShareView> },
}

pub open spec fn share_views(shares: Seq<OwnShare>) -> Seq<OwnShareView> {
    shares.map_values(|s: OwnShare| s@)
}

impl View for StartOutcome {
    type V = StartOutcomeView;

    open spec fn view(&self) -> StartOutcomeView {
        match self {
            StartOutcome::AlreadyPresent => StartOutcomeView::AlreadyPresent,
            StartOutcome::OperatorsUnknown => StartOutcomeView::OperatorsUnknown,
            StartOutcome::MalformedNodeKey { operator_index, own_shares } =>
                StartOutcomeView::MalformedNodeKey {
                operator_index: *operator_index as int,
                own_shares: share_views(own_shares@),
            },
            StartOutcome::Retry { operator_index, own_shares } => StartOutcomeView::Retry {
                operator_index: *operator_index as int,
                own_shares: share_views(own_shares@),
            },
            StartOutcome::Launch { committee, own_shares } => StartOutcomeView::Launch {
                committee: committee@,
                own_shares: share_views(own_shares@),
            },
        }
    }
}

/// What the node does with the password file of a stopped validator's key share.
#[derive(Clone, Debug, PartialEq, Eq)]
pub enum PasswordFile {
    /// The contract has told the node of no operators for the validator.
    OperatorsUnknown,
    /// No operator of the validator is this node: there is no file to remove.
    NotAnOperator,
    /// The file of this node's share, by name, is removed.
    Remove(String),
    /// The node key of the operator at this index, met before any operator
    /// that is this node, is not `NODE_PUBLIC_KEY_LEN` bytes long: the node fails.
    MalformedNodeKey(usize),
}

pub enum PasswordFileView {
    OperatorsUnknown,
    NotAnOperator,
    Remove(Seq<char>),
    MalformedNodeKey(int),
}

impl View for PasswordFile {
    type V = PasswordFileView;

    open spec fn view(&self) -> PasswordFileView {
        match self {
            PasswordFile::OperatorsUnknown => PasswordFileView::OperatorsUnknown,
            PasswordFile::NotAnOperator => PasswordFileView::NotAnOperator,
            PasswordFile::Remove(name) => PasswordFileView::Remove(name@),
            PasswordFile::MalformedNodeKey(i) => PasswordFileView::MalformedNodeKey(*i as int),
        }
    }
}

/// What the node does to stop a validator: it drops the validator's message
/// handlers and its keystore, removes its database entry (named by the
/// validator id) and its directory, then deals with the password file.
#[derive(Clone, Debug, PartialEq, Eq)]
pub struct StopPlan {
    pub validator_id: u64,
    pub database_entry: String,
    pub password_file: PasswordFile,
}

pub struct StopPlanView {
    pub validator_id: u64,
    pub database_entry: Seq<char>,
    pub password_file: PasswordFileView,
}

impl View for StopPlan {
    type V = StopPlanView;

    open spec fn view(&self) -> StopPlanView {
        StopPlanView {
            validator_id: self.validator_id,
            database_entry: self.database_entry@,
            password_file: self.password_file@,
        }
    }
}

/// What the node does with one command of the contract listener.
#[derive(Clone, Debug, PartialEq, Eq)]
pub enum CommandOutcome {
    Start(StartOutcome),
    Stop(StopPlan),
}

pub enum CommandOutcomeView {
    Start(StartOutcomeView),
    Stop(StopPlanView),
}

impl View for CommandOutcome {
    type V = CommandOutcomeView;

    open spec fn view(&self) -> CommandOutcomeView {
        match self {
            CommandOutcome::Start(s) => CommandOutcomeView::Start(s@),
            CommandOutcome::Stop(s) => CommandOutcomeView::Stop(s@),
        }
    }
}

/// The operator's node is in the peer directory.
pub open spec fn discovered(peers: Map<Seq<char>, IpAddress>, op: OperatorView) -> bool {
    peers.contains_key(base64_standard(op.node_public_key))
}

/// The operator's node key has the length of a node public key.
pub open spec fn node_key_well_formed(op: OperatorView) -> bool {
    op.node_public_key.len() == NODE_PUBLIC_KEY_LEN
}

/// Where the walk over the operators of a started validator stops, looking
/// from `i` on: the first operator that is not discovered or whose node key
/// is malformed, or the end of the list.
pub open spec fn start_walk_end(ops: Seq<OperatorView>, peers: Map<Seq<char>, IpAddress>, i: int) -> int
    decreases ops.len() - i,
{
    if i >= ops.len() {
        ops.len() as int
    } else if !discovered(peers, ops[i]) || !node_key_well_formed(ops[i]) {
        i
    } else {
        start_walk_end(ops, peers, i + 1)
    }
}

/// The shares that this node, named `name`, holds among `ops`, in list order.
pub open spec fn own_shares(ops: Seq<OperatorView>, name: Seq<u8>) -> Seq<OwnShareView>
    decreases ops.len(),
{
    if ops.len() == 0 {
        Seq::empty()
    } else {
        let rest = own_shares(ops.drop_last(), name);
        if ops.last().node_public_key == name {
            rest.push(OwnShareView { operator_id: ops.last().id, encrypted_key: ops.last().encrypted_key })
        } else {
            rest
        }
    }
}

/// The address at which a discovered operator is reached: its node's IP with
/// this node's base port.
pub open spec fn operator_address(peers: Map<Seq<char>, IpAddress>, op: OperatorView, base_port: u16) -> SocketAddress {
    SocketAddress { ip: peers[base64_standard(op.node_public_key)], port: base_port }
}

/// The committee of a validator whose operators are `ops`.
pub open spec fn committee_of(
    validator: ValidatorView,
    ops: Seq<OperatorView>,
    peers: Map<Seq<char>, IpAddress>,
    base_port: u16,
) -> CommitteeView {
    CommitteeView {
        total: ops.len() as u64,
        threshold: THRESHOLD,
        validator_id: validator.id,
        validator_public_key: validator.validator_public_key,
        operator_ids: ops.map_values(|o: OperatorView| o.id),
        operator_public_keys: ops.map_values(|o: OperatorView| o.shared_public_key),
        node_public_keys: ops.map_values(|o: OperatorView| o.node_public_key),
        base_socket_addresses: ops.map_values(|o: OperatorView| operator_address(peers, o, base_port)),
    }
}

/// What the node does with a request to start `validator`, given whether
/// its directory exists, the operators the contract listed for it, the
/// peer directory, the node's own key `name` and its base port.
pub open spec fn planned_start(
    validator: ValidatorView,
    directory_exists: bool,
    operators: Option<Seq<OperatorView>>,
    peers: Map<Seq<char>, IpAddress>,
    name: Seq<u8>,
    base_port: u16,
) -> StartOutcomeView {
    if directory_exists {
        StartOutcomeView::AlreadyPresent
    } else {
        match operators {
            None => StartOutcomeView::OperatorsUnknown,
            Some(ops) => {
                let end = start_walk_end(ops, peers, 0);
                let shares = own_shares(ops.take(end), name);
                if end < ops.len() {
                    if discovered(peers, ops[end]) {
                        StartOutcomeView::MalformedNodeKey { operator_index: end, own_shares: shares }
                    } else {
                        StartOutcomeView::Retry { operator_index: end, own_shares: shares }
                    }
                } else {
                    StartOutcomeView::Launch {
                        committee: committee_of(validator, ops, peers, base_port),
                        own_shares: shares,
                    }
                }
            },
        }
    }
}

/// Where the search for this node among a stopped validator's operators
/// stops, looking from `i` on: the first operator whose node key is
/// malformed or is `name`, or the end of the list.
pub open spec fn stop_search_end(ops: Seq<OperatorView>, name: Seq<u8>, i: int) -> int
    decreases ops.len() - i,
{
    if i >= ops.len() {
        ops.len() as int
    } else if !node_key_well_formed(ops[i]) || ops[i].node_public_key == name {
        i
    } else {
        stop_search_end(ops, name, i + 1)
    }
}

/// What the node does to stop `validator`, whose key prints as `key_text`.
pub open spec fn planned_stop(
    validator: ValidatorView,
    key_text: Seq<char>,
    operators: Option<Seq<OperatorView>>,
    name: Seq<u8>,
) -> StopPlanView {
    StopPlanView {
        validator_id: validator.id,
        database_entry: decimal(validator.id as nat),
        password_file: match operators {
            None => PasswordFileView::OperatorsUnknown,
            Some(ops) => {
                let end = stop_search_end(ops, name, 0);
                if end >= ops.len() {
                    PasswordFileView::NotAnOperator
                } else if !node_key_well_formed(ops[end]) {
                    PasswordFileView::MalformedNodeKey(end)
                } else {
                    PasswordFileView::Remove(password_file_name(key_text, ops[end].id))
                }
            },
        },
    }
}

} // verus!
