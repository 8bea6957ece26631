use dvf_node::contract::{Operator, Validator, ValidatorCommand};
use dvf_node::names::{decimal_text, password_file_text};
use dvf_node::net::{with_wildcard_ip, IpAddress, SocketAddress};
use dvf_node::node::{Node, NodeConfig};
use dvf_node::peers::PeerDirectory;
use dvf_node::plan::{CommandOutcome, OwnShare, PasswordFile, StartOutcome, THRESHOLD};

const SELF_KEY_TEXT: &str = "AQEBAQEBAQEBAQEBAQEBAQEBAQEBAQEBAQEBAQEBAQEB";
const PEER_TWO_TEXT: &str = "AgICAgICAgICAgICAgICAgICAgICAgICAgICAgICAgIC";
const PEER_THREE_TEXT: &str = "AwMDAwMDAwMDAwMDAwMDAwMDAwMDAwMDAwMDAwMDAwMD";

fn addr(ip: u32, port: u16) -> SocketAddress {
    SocketAddress { ip: IpAddress::V4(ip), port }
}

fn config() -> NodeConfig {
    NodeConfig {
        base_address: addr(0x0a00_0001, 26000),
        transaction_address: addr(0x0a00_0001, 26001),
        mempool_address: addr(0x0a00_0001, 26002),
        consensus_address: addr(0x0a00_0001, 26003),
        signature_address: addr(0x0a00_0001, 26004),
    }
}

fn node() -> Node {
    Node::new(config(), vec![1u8; 33], vec![7u8; 32])
}

fn operator(id: u64, key_byte: u8, key_len: usize) -> Operator {
    Operator {
        id,
        node_public_key: vec![key_byte; key_len],
        shared_public_key: vec![0x80 + key_byte; 48],
        encrypted_key: vec![id as u8; 4],
    }
}

fn validator(id: u64) -> Validator {
    Validator { id, validator_public_key: vec![0xa0; 48] }
}

fn start(node: &Node, id: u64, exists: bool) -> StartOutcome {
    match node.process_validator_command(
        &ValidatorCommand::Start(validator(id)),
        &"0xa0a0".to_string(),
        exists,
    ) {
        CommandOutcome::Start(s) => s,
        other => panic!("unexpected outcome {:?}", other),
    }
}

#[test]
fn wildcard_keeps_port_and_binds_all_interfaces() {
    assert_eq!(with_wildcard_ip(addr(0x7f00_0001, 8080)), addr(0, 8080));
    let v6 = SocketAddress { ip: IpAddress::V6(1), port: 9000 };
    assert_eq!(with_wildcard_ip(v6), addr(0, 9000));
}

#[test]
fn listen_addresses_use_configured_ports() {
    let n = node();
    let l = n.listen_addresses();
    assert_eq!(l.transaction, addr(0, 26001));
    assert_eq!(l.mempool, addr(0, 26002));
    assert_eq!(l.consensus, addr(0, 26003));
    assert_eq!(l.signature, addr(0, 26004));
    assert_eq!(n.discovery_port(4), 26004);
}

#[test]
fn new_node_knows_only_itself_by_base64_key() {
    let n = node();
    assert_eq!(n.peers.get(&SELF_KEY_TEXT.to_string()), Some(IpAddress::V4(0x0a00_0001)));
    assert_eq!(n.peers.get(&PEER_TWO_TEXT.to_string()), None);
    assert!(n.validator_operators.is_empty());
}

#[test]
fn peer_directory_insert_replaces_and_keeps_others() {
    let mut d = PeerDirectory::new();
    d.insert("a".to_string(), IpAddress::V4(1));
    d.insert("b".to_string(), IpAddress::V4(2));
    d.insert("a".to_string(), IpAddress::V6(3));
    assert_eq!(d.get(&"a".to_string()), Some(IpAddress::V6(3)));
    assert_eq!(d.get(&"b".to_string()), Some(IpAddress::V4(2)));
    assert_eq!(d.get(&"c".to_string()), None);
}

#[test]
fn node_public_key_length_is_a_compressed_point() {
    assert_eq!(dvf_node::contract::NODE_PUBLIC_KEY_LEN, 33);
}

#[test]
fn secret_key_validity() {
    let mut n = node();
    assert_eq!(n.secret_key().map(|k| k.secret_bytes()), Some([7u8; 32]));
    n.secret = vec![0u8; 32];
    assert!(n.secret_key().is_none());
    n.secret = vec![7u8; 31];
    assert!(n.secret_key().is_none());
    let order: Vec<u8> = vec![
        0xff, 0xff, 0xff, 0xff, 0xff, 0xff, 0xff, 0xff, 0xff, 0xff, 0xff, 0xff, 0xff, 0xff, 0xff,
        0xfe, 0xba, 0xae, 0xdc, 0xe6, 0xaf, 0x48, 0xa0, 0x3b, 0xbf, 0xd2, 0x5e, 0x8c, 0xd0, 0x36,
        0x41, 0x41,
    ];
    n.secret = order.clone();
    assert!(n.secret_key().is_none());
    let mut below = order;
    below[31] = 0x40;
    n.secret = below;
    assert!(n.secret_key().is_some());
}

#[test]
fn decimal_text_values() {
    assert_eq!(decimal_text(0), "0");
    assert_eq!(decimal_text(7), "7");
    assert_eq!(decimal_text(10), "10");
    assert_eq!(decimal_text(120), "120");
    assert_eq!(decimal_text(u64::MAX), u64::MAX.to_string());
}

#[test]
fn password_file_text_joins_key_and_operator() {
    assert_eq!(password_file_text(&"0xab".to_string(), 12), "0xab_12");
}

#[test]
fn start_of_present_validator_does_nothing() {
    let mut n = node();
    n.validator_operators.insert(5, vec![operator(1, 1, 33)]);
    assert_eq!(start(&n, 5, true), StartOutcome::AlreadyPresent);
}

#[test]
fn start_without_operators_reports_them_unknown() {
    let n = node();
    assert_eq!(start(&n, 5, false), StartOutcome::OperatorsUnknown);
}

#[test]
fn start_with_all_operators_discovered_launches() {
    let mut n = node();
    n.peers.insert(PEER_TWO_TEXT.to_string(), IpAddress::V4(0x0a00_0002));
    n.peers.insert(PEER_THREE_TEXT.to_string(), IpAddress::V4(0x0a00_0003));
    n.validator_operators.insert(
        5,
        vec![operator(11, 2, 33), operator(12, 1, 33), operator(13, 3, 33)],
    );
    match start(&n, 5, false) {
        StartOutcome::Launch { committee, own_shares } => {
            assert_eq!(committee.total, 3);
            assert_eq!(committee.threshold, THRESHOLD);
            assert_eq!(committee.threshold, 3);
            assert_eq!(committee.validator_id, 5);
            assert_eq!(committee.validator_public_key, vec![0xa0; 48]);
            assert_eq!(committee.operator_ids, vec![11, 12, 13]);
            assert_eq!(
                committee.operator_public_keys,
                vec![vec![0x82; 48], vec![0x81; 48], vec![0x83; 48]]
            );
            assert_eq!(committee.node_public_keys, vec![vec![2; 33], vec![1; 33], vec![3; 33]]);
            assert_eq!(
                committee.base_socket_addresses,
                vec![addr(0x0a00_0002, 26000), addr(0x0a00_0001, 26000), addr(0x0a00_0003, 26000)]
            );
            assert_eq!(own_shares, vec![OwnShare { operator_id: 12, encrypted_key: vec![12; 4] }]);
        },
        other => panic!("unexpected outcome {:?}", other),
    }
}

#[test]
fn start_with_undiscovered_operator_retries() {
    let mut n = node();
    n.peers.insert(PEER_THREE_TEXT.to_string(), IpAddress::V4(0x0a00_0003));
    n.validator_operators.insert(
        5,
        vec![operator(12, 1, 33), operator(11, 2, 33), operator(13, 3, 33)],
    );
    assert_eq!(
        start(&n, 5, false),
        StartOutcome::Retry { operator_index: 1, own_shares: vec![OwnShare { operator_id: 12, encrypted_key: vec![12; 4] }] }
    );
}

#[test]
fn start_stops_before_own_operator_when_an_earlier_one_is_missing() {
    let mut n = node();
    n.validator_operators.insert(5, vec![operator(11, 2, 33), operator(12, 1, 33)]);
    assert_eq!(start(&n, 5, false), StartOutcome::Retry { operator_index: 0, own_shares: vec![] });
}

#[test]
fn start_with_malformed_discovered_key_fails_at_it() {
    let mut n = node();
    n.peers.insert("CQkJCQkJCQkJCQkJCQkJCQkJCQkJCQkJCQkJCQkJCQk=".to_string(), IpAddress::V4(9));
    n.validator_operators.insert(5, vec![operator(12, 1, 33), operator(19, 9, 32)]);
    assert_eq!(
        start(&n, 5, false),
        StartOutcome::MalformedNodeKey {
            operator_index: 1,
            own_shares: vec![OwnShare { operator_id: 12, encrypted_key: vec![12; 4] }],
        }
    );
}

#[test]
fn start_with_malformed_undiscovered_key_retries() {
    let mut n = node();
    n.validator_operators.insert(5, vec![operator(19, 9, 32)]);
    assert_eq!(start(&n, 5, false), StartOutcome::Retry { operator_index: 0, own_shares: vec![] });
}

#[test]
fn fresh_node_launches_committee_of_itself_at_its_base_address() {
    let mut n = node();
    n.validator_operators.insert(8, vec![operator(4, 1, 33)]);
    match start(&n, 8, false) {
        StartOutcome::Launch { committee, own_shares } => {
            assert_eq!(committee.base_socket_addresses, vec![config().base_address]);
            assert_eq!(own_shares.len(), 1);
        },
        other => panic!("unexpected outcome {:?}", other),
    }
}

#[test]
fn stop_plans_database_entry_and_password_file() {
    let mut n = node();
    n.validator_operators.insert(42, vec![operator(11, 2, 33), operator(12, 1, 33), operator(13, 1, 33)]);
    let plan = n.plan_stop(&validator(42), &"0xa0a0".to_string());
    assert_eq!(plan.validator_id, 42);
    assert_eq!(plan.database_entry, "42");
    assert_eq!(plan.password_file, PasswordFile::Remove("0xa0a0_12".to_string()));
}

#[test]
fn stop_without_operators_or_membership() {
    let mut n = node();
    let plan = n.plan_stop(&validator(3), &"0xa0a0".to_string());
    assert_eq!(plan.database_entry, "3");
    assert_eq!(plan.password_file, PasswordFile::OperatorsUnknown);
    n.validator_operators.insert(3, vec![operator(11, 2, 33)]);
    let plan = n.plan_stop(&validator(3), &"0xa0a0".to_string());
    assert_eq!(plan.password_file, PasswordFile::NotAnOperator);
}

#[test]
fn stop_with_malformed_key_before_own_operator_fails_at_it() {
    let mut n = node();
    n.validator_operators.insert(3, vec![operator(11, 2, 32), operator(12, 1, 33)]);
    let plan = n.plan_stop(&validator(3), &"0xa0a0".to_string());
    assert_eq!(plan.password_file, PasswordFile::MalformedNodeKey(0));
    n.validator_operators.insert(3, vec![operator(12, 1, 33), operator(11, 2, 32)]);
    let plan = n.plan_stop(&validator(3), &"0xa0a0".to_string());
    assert_eq!(plan.password_file, PasswordFile::Remove("0xa0a0_12".to_string()));
}

#[test]
fn stop_through_command_dispatch() {
    let n = node();
    match n.process_validator_command(&ValidatorCommand::Stop(validator(9)), &"0xa0".to_string(), true) {
        CommandOutcome::Stop(plan) => {
            assert_eq!(plan.validator_id, 9);
            assert_eq!(plan.database_entry, "9");
        },
        other => panic!("unexpected outcome {:?}", other),
    }
}

#[test]
fn stop_removes_the_share_that_start_kept() {
    let mut n = node();
    n.peers.insert(PEER_TWO_TEXT.to_string(), IpAddress::V4(2));
    n.validator_operators.insert(6, vec![operator(21, 2, 33), operator(22, 1, 33)]);
    let kept = match start(&n, 6, false) {
        StartOutcome::Launch { own_shares, .. } => own_shares[0].operator_id,
        other => panic!("unexpected outcome {:?}", other),
    };
    let plan = n.plan_stop(&validator(6), &"0xa0a0".to_string());
    assert_eq!(plan.password_file, PasswordFile::Remove(format!("0xa0a0_{}", kept)));
}

#[test]
fn distinct_validators_have_distinct_database_entries() {
    let n = node();
    let a = n.plan_stop(&validator(1), &"k".to_string());
    let b = n.plan_stop(&validator(10), &"k".to_string());
    let c = n.plan_stop(&validator(100), &"k".to_string());
    assert_ne!(a.database_entry, b.database_entry);
    assert_ne!(b.database_entry, c.database_entry);
}
