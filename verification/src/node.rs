use std::collections::HashMap;
use vstd::prelude::*;

use crate::bytes::{bytes_equal, copy_bytes};
use crate::contract::{
    operator_views, Operator, OperatorView, Validator, ValidatorCommand, NODE_PUBLIC_KEY_LEN,
};
use crate::keys::{
    base64_standard, encode_base64, secret_key_bytes, secret_key_from_bytes, valid_secret_key,
};
use crate::names::{decimal_text, password_file_text};
use crate::net::{with_wildcard_ip, unspecified_ipv4, IpAddress, SocketAddress};
use crate::laws::decimal_value;
use crate::peers::PeerDirectory;
use crate::plan::{
    byte_string_views, committee_of, discovered, own_shares, planned_start, planned_stop, share_views,
    start_walk_end, stop_search_end, CommandOutcome, CommandOutcomeView, CommitteeDefinition,
    OwnShare, PasswordFile, StartOutcome, StopPlan, THRESHOLD, operator_address,
};

verus! {

broadcast use vstd::std_specs::hash::group_hash_axioms;

/// The addresses a node is configured with.
#[derive(Clone, Copy, Debug, PartialEq, Eq, Structural)]
pub struct NodeConfig {
    /// The address at which the node's committee peers reach it.
    pub base_address: SocketAddress,
    pub transaction_address: SocketAddress,
    pub mempool_address: SocketAddress,
    pub consensus_address: SocketAddress,
    pub signature_address: SocketAddress,
}

/// The addresses on which the node listens for each kind of message.
#[derive(Clone, Copy, Debug, PartialEq, Eq, Structural)]
pub struct ListenAddresses {
    pub transaction: SocketAddress,
    pub mempool: SocketAddress,
    pub consensus: SocketAddress,
    pub signature: SocketAddress,
}

/// The listening address for a configured address: the same port, every interface.
pub open spec fn wildcard(addr: SocketAddress) -> SocketAddress {
    SocketAddress { ip: unspecified_ipv4(), port: addr.port }
}

/// The peers a node knows when it is created: itself alone, at the IP of
/// its base address.
pub open spec fn fresh_peers(config: NodeConfig, name: Seq<u8>) -> Map<Seq<char>, IpAddress> {
    Map::<Seq<char>, IpAddress>::empty().insert(base64_standard(name), config.base_address.ip)
}

/// An operator node: its configuration, its key pair, the peers it has
/// discovered and the operators of each validator the contract told it of.
pub struct Node {
    pub config: NodeConfig,
    /// The node's public key.
    pub name: Vec<u8>,
    /// The node's secret key.
    pub secret: Vec<u8>,
    /// The base64 text of each known node key, mapped to that node's IP.
    pub peers: PeerDirectory,
    /// The operators of each validator, by validator id.
    pub validator_operators: HashMap<u64, Vec<Operator>>,
}

impl Node {
    /// The operators the contract listed for `validator_id`, if any.
    pub open spec fn operators_of(&self, validator_id: u64) -> Option<Seq<OperatorView>> {
        if self.validator_operators@.contains_key(validator_id) {
            Some(operator_views(self.validator_operators@[validator_id]@))
        } else {
            None
        }
    }

    /// The node's base port, which every committee member listens on.
    pub open spec fn base_port(&self) -> u16 {
        self.config.base_address.port
    }

    /// Creates a node that knows only itself: its own key text maps to the
    /// IP of its base address, and no validator has operators yet.
    pub fn new(config: NodeConfig, name: Vec<u8>, secret: Vec<u8>) -> (node: Node)
        ensures
            node.config == config,
            node.name@ == name@,
            node.secret@ == secret@,
            node.peers@ == fresh_peers(config, name@),
            node.validator_operators@ == Map::<u64, Vec<Operator>>::empty(),
    {
        let mut peers = PeerDirectory::new();
        let own_key = encode_base64(name.as_slice());
        peers.insert(own_key, config.base_address.ip);
        Node { config, name, secret, peers, validator_operators: HashMap::new() }
    }

    /// The addresses on which the node listens: each configured message
    /// address, on every interface.
    pub fn listen_addresses(&self) -> (res: ListenAddresses)
        ensures
            res.transaction == wildcard(self.config.transaction_address),
            res.mempool == wildcard(self.config.mempool_address),
            res.consensus == wildcard(self.config.consensus_address),
            res.signature == wildcard(self.config.signature_address),
            res.transaction == (SocketAddress {
                ip: IpAddress::V4(0),
                port: self.config.transaction_address.port,
            }),
            res.mempool == (SocketAddress { ip: IpAddress::V4(0), port: self.config.mempool_address.port }),
            res.consensus == (SocketAddress {
                ip: IpAddress::V4(0),
                port: self.config.consensus_address.port,
            }),
            res.signature == (SocketAddress {
                ip: IpAddress::V4(0),
                port: self.config.signature_address.port,
            }),
    {
        ListenAddresses {
            transaction: with_wildcard_ip(self.config.transaction_address),
            mempool: with_wildcard_ip(self.config.mempool_address),
            consensus: with_wildcard_ip(self.config.consensus_address),
            signature: with_wildcard_ip(self.config.signature_address),
        }
    }

    /// The port of peer discovery: the base port moved by `offset`.
    pub fn discovery_port(&self, offset: u16) -> (port: u16)
        requires
            self.base_port() + offset <= u16::MAX,
        ensures
            port == self.base_port() + offset,
    {
        self.config.base_address.port + offset
    }

    /// The node's secret key as a secp256k1 key holding the node's secret
    /// bytes, if they make a valid one.
    pub fn secret_key(&self) -> (key: Option<secp256k1::SecretKey>)
        ensures
            key is Some <==> valid_secret_key(self.secret@),
            key matches Some(k) ==> secret_key_bytes(k) == self.secret@,
    {
        secret_key_from_bytes(self.secret.as_slice())
    }

    /// Decides what to do with `command`. `validator_key_text` is how the
    /// validator's public key prints, and `validator_directory_exists` tells
    /// whether the validator's directory is on disk.
    pub fn process_validator_command(
        &self,
        command: &ValidatorCommand,
        validator_key_text: &String,
        validator_directory_exists: bool,
    ) -> (res: CommandOutcome)
        ensures
            res@ == match command {
                ValidatorCommand::Start(v) => CommandOutcomeView::Start(
                    planned_start(
                        v@,
                        validator_directory_exists,
                        self.operators_of(v.id),
                        self.peers@,
                        self.name@,
                        self.base_port(),
                    ),
                ),
                ValidatorCommand::Stop(v) => CommandOutcomeView::Stop(
                    planned_stop(v@, validator_key_text@, self.operators_of(v.id), self.name@),
                ),
            },
    {
        match command {
            ValidatorCommand::Start(v) => CommandOutcome::Start(
                self.plan_start(v, validator_directory_exists),
            ),
            ValidatorCommand::Stop(v) => CommandOutcome::Stop(
                self.plan_stop(v, validator_key_text),
            ),
        }
    }

    /// Decides what to do with a request to start `validator`.
    pub fn plan_start(&self, validator: &Validator, validator_directory_exists: bool) -> (res:
        StartOutcome)
        ensures
            res@ == planned_start(
                validator@,
                validator_directory_exists,
                self.operators_of(validator.id),
                self.peers@,
                self.name@,
                self.base_port(),
            ),
            res matches StartOutcome::Launch { committee, .. } ==> committee.validator_id
                == validator.id && committee.validator_public_key@
                == validator.validator_public_key@,
    {
        if validator_directory_exists {
            return StartOutcome::AlreadyPresent;
        }
        let ops = match self.validator_operators.get(&validator.id) {
            None => {
                return StartOutcome::OperatorsUnknown;
            },
            Some(ops) => ops,
        };
        let ghost ov = operator_views(ops@);
        let ghost peers = self.peers@;
        let ghost name = self.name@;
        let base_port = self.config.base_address.port;
        let n = ops.len();
        let mut operator_ids: Vec<u64> = Vec::new();
        let mut operator_public_keys: Vec<Vec<u8>> = Vec::new();
        let mut node_public_keys: Vec<Vec<u8>> = Vec::new();
        let mut addresses: Vec<SocketAddress> = Vec::new();
        let mut shares: Vec<OwnShare> = Vec::new();
        let mut i: usize = 0;
        while i < n
            invariant
                n == ops@.len(),
                ov == operator_views(ops@),
                !validator_directory_exists,
                self.operators_of(validator.id) == Some(ov),
                peers == self.peers@,
                name == self.name@,
                base_port == self.base_port(),
                i <= n,
                start_walk_end(ov, peers, i as int) == start_walk_end(ov, peers, 0),
                operator_ids@ == ov.take(i as int).map_values(|o: OperatorView| o.id),
                byte_string_views(operator_public_keys@) == ov.take(i as int).map_values(
                    |o: OperatorView| o.shared_public_key,
                ),
                byte_string_views(node_public_keys@) == ov.take(i as int).map_values(
                    |o: OperatorView| o.node_public_key,
                ),
                addresses@ == ov.take(i as int).map_values(
                    |o: OperatorView| operator_address(peers, o, base_port),
                ),
                share_views(shares@) == own_shares(ov.take(i as int), name),
            decreases n - i,
        {
            let op = &ops[i];
            assert(ov[i as int] == op@);
            let key = encode_base64(op.node_public_key.as_slice());
            match self.peers.get(&key) {
                None => {
                    assert(!discovered(peers, ov[i as int]));
                    return StartOutcome::Retry { operator_index: i, own_shares: shares };
                },
                Some(ip) => {
                    if op.node_public_key.len() != NODE_PUBLIC_KEY_LEN {
                        return StartOutcome::MalformedNodeKey {
                            operator_index: i,
                            own_shares: shares,
                        };
                    }
                    proof {
                        assert(ov.take(i + 1) =~= ov.take(i as int).push(ov[i as int]));
                        assert(ov.take(i + 1).drop_last() =~= ov.take(i as int));
                    }
                    let ghost prev_shared = byte_string_views(operator_public_keys@);
                    let ghost prev_nodes = byte_string_views(node_public_keys@);
                    operator_ids.push(op.id);
                    operator_public_keys.push(copy_bytes(&op.shared_public_key));
                    node_public_keys.push(copy_bytes(&op.node_public_key));
                    addresses.push(SocketAddress { ip, port: base_port });
                    if bytes_equal(op.node_public_key.as_slice(), self.name.as_slice()) {
                        shares.push(
                            OwnShare {
                                operator_id: op.id,
                                encrypted_key: copy_bytes(&op.encrypted_key),
                            },
                        );
                    }
                    proof {
                        assert(operator_ids@ =~= ov.take(i + 1).map_values(|o: OperatorView| o.id));
                        assert(byte_string_views(operator_public_keys@) =~= prev_shared.push(
                            op.shared_public_key@,
                        ));
                        assert(byte_string_views(node_public_keys@) =~= prev_nodes.push(
                            op.node_public_key@,
                        ));
                        assert(byte_string_views(operator_public_keys@) =~= ov.take(i + 1).map_values(
                            |o: OperatorView| o.shared_public_key,
                        ));
                        assert(byte_string_views(node_public_keys@) =~= ov.take(i + 1).map_values(
                            |o: OperatorView| o.node_public_key,
                        ));
                        assert(addresses@ =~= ov.take(i + 1).map_values(
                            |o: OperatorView| operator_address(peers, o, base_port),
                        ));
                        assert(share_views(shares@) =~= own_shares(ov.take(i + 1), name));
                    }
                },
            }
            i = i + 1;
        }
        proof {
            assert(ov.take(n as int) =~= ov);
        }
        let committee = CommitteeDefinition {
            total: n as u64,
            threshold: THRESHOLD,
            validator_id: validator.id,
            validator_public_key: copy_bytes(&validator.validator_public_key),
            operator_ids,
            operator_public_keys,
            node_public_keys,
            base_socket_addresses: addresses,
        };
        proof {
            assert(committee@ == committee_of(validator@, ov, peers, base_port));
        }
        StartOutcome::Launch { committee, own_shares: shares }
    }

    /// Decides what to do to stop `validator`, whose key prints as `validator_key_text`.
    pub fn plan_stop(&self, validator: &Validator, validator_key_text: &String) -> (res: StopPlan)
        ensures
            res@ == planned_stop(
                validator@,
                validator_key_text@,
                self.operators_of(validator.id),
                self.name@,
            ),
            res.validator_id == validator.id,
            decimal_value(res.database_entry@) == validator.id,
    {
        let database_entry = decimal_text(validator.id);
        let password_file = match self.validator_operators.get(&validator.id) {
            None => PasswordFile::OperatorsUnknown,
            Some(ops) => {
                let ghost ov = operator_views(ops@);
                let n = ops.len();
                let mut i: usize = 0;
                let mut found: PasswordFile = PasswordFile::NotAnOperator;
                while i < n
                    invariant_except_break
                        i <= n,
                        stop_search_end(ov, self.name@, i as int) == stop_search_end(
                            ov,
                            self.name@,
                            0,
                        ),
                        found@ == crate::plan::PasswordFileView::NotAnOperator,
                    invariant
                        n == ops@.len(),
                        ov == operator_views(ops@),
                    ensures
                        found@ == (if stop_search_end(ov, self.name@, 0) >= n {
                            crate::plan::PasswordFileView::NotAnOperator
                        } else if ov[stop_search_end(ov, self.name@, 0)].node_public_key.len()
                            != NODE_PUBLIC_KEY_LEN {
                            crate::plan::PasswordFileView::MalformedNodeKey(
                                stop_search_end(ov, self.name@, 0),
                            )
                        } else {
                            crate::plan::PasswordFileView::Remove(
                                crate::names::password_file_name(
                                    validator_key_text@,
                                    ov[stop_search_end(ov, self.name@, 0)].id,
                                ),
                            )
                        }),
                    decreases n - i,
                {
                    let op = &ops[i];
                    assert(ov[i as int] == op@);
                    if op.node_public_key.len() != NODE_PUBLIC_KEY_LEN {
                        found = PasswordFile::MalformedNodeKey(i);
                        break;
                    }
                    if bytes_equal(op.node_public_key.as_slice(), self.name.as_slice()) {
                        found = PasswordFile::Remove(password_file_text(validator_key_text, op.id));
                        break;
                    }
                    i = i + 1;
                }
                found
            },
        };
        StopPlan { validator_id: validator.id, database_entry, password_file }
    }
}

} // verus!
