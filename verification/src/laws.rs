//! Properties of the node's decisions that hold across inputs and calls.
use vstd::prelude::*;

use crate::contract::{OperatorView, ValidatorView, NODE_PUBLIC_KEY_LEN};
use crate::keys::base64_standard;
use crate::names::{decimal, digit_char, password_file_name};
use crate::net::{unspecified_ipv4, IpAddress, SocketAddress};
use crate::node::{fresh_peers, wildcard, NodeConfig};
use crate::plan::{
    discovered, node_key_well_formed, operator_address, own_shares, planned_start, planned_stop,
    start_walk_end, stop_search_end, PasswordFileView, StartOutcomeView, THRESHOLD,
};

verus! {

/// Every operator is discovered and has a well-formed node key.
pub open spec fn all_operators_ready(ops: Seq<OperatorView>, peers: Map<Seq<char>, IpAddress>) -> bool {
    forall|i: int|
        0 <= i < ops.len() ==> peers.contains_key(base64_standard((#[trigger] ops[i]).node_public_key))
            && ops[i].node_public_key.len() == NODE_PUBLIC_KEY_LEN
}

proof fn lemma_start_walk_end(ops: Seq<OperatorView>, peers: Map<Seq<char>, IpAddress>, i: int)
    requires
        0 <= i <= ops.len(),
    ensures
        i <= start_walk_end(ops, peers, i) <= ops.len(),
        forall|j: int|
            i <= j < start_walk_end(ops, peers, i) ==> discovered(peers, #[trigger] ops[j])
                && node_key_well_formed(ops[j]),
        start_walk_end(ops, peers, i) < ops.len() ==> !(discovered(
            peers,
            ops[start_walk_end(ops, peers, i)],
        ) && node_key_well_formed(ops[start_walk_end(ops, peers, i)])),
    decreases ops.len() - i,
{
    if i < ops.len() && discovered(peers, ops[i]) && node_key_well_formed(ops[i]) {
        lemma_start_walk_end(ops, peers, i + 1);
    }
}

proof fn lemma_stop_search_end(ops: Seq<OperatorView>, name: Seq<u8>, i: int)
    requires
        0 <= i <= ops.len(),
    ensures
        i <= stop_search_end(ops, name, i) <= ops.len(),
        forall|j: int|
            i <= j < stop_search_end(ops, name, i) ==> node_key_well_formed(#[trigger] ops[j])
                && ops[j].node_public_key != name,
        stop_search_end(ops, name, i) < ops.len() ==> (!node_key_well_formed(
            ops[stop_search_end(ops, name, i)],
        ) || ops[stop_search_end(ops, name, i)].node_public_key == name),
    decreases ops.len() - i,
{
    if i < ops.len() && node_key_well_formed(ops[i]) && ops[i].node_public_key != name {
        lemma_stop_search_end(ops, name, i + 1);
    }
}

/// A start of a validator whose directory is absent and whose operators are
/// known launches it exactly when every operator is discovered and has a
/// well-formed node key; otherwise it retries, or fails on a malformed key.
pub proof fn law_launch_iff_operators_ready(
    validator: ValidatorView,
    ops: Seq<OperatorView>,
    peers: Map<Seq<char>, IpAddress>,
    name: Seq<u8>,
    base_port: u16,
)
    ensures
        planned_start(validator, false, Some(ops), peers, name, base_port) is Launch
            <==> all_operators_ready(ops, peers),
        planned_start(validator, false, Some(ops), peers, name, base_port) is Retry
            <==> exists|i: int|
            0 <= i < ops.len() && !peers.contains_key(base64_standard((#[trigger] ops[i]).node_public_key))
                && (forall|j: int|
                0 <= j < i ==> peers.contains_key(base64_standard((#[trigger] ops[j]).node_public_key))
                    && ops[j].node_public_key.len() == NODE_PUBLIC_KEY_LEN),
{
    lemma_start_walk_end(ops, peers, 0);
    let end = start_walk_end(ops, peers, 0);
    if end < ops.len() {
        assert(!(discovered(peers, ops[end]) && node_key_well_formed(ops[end])));
    }
    if exists|i: int|
        0 <= i < ops.len() && !peers.contains_key(base64_standard((#[trigger] ops[i]).node_public_key))
            && (forall|j: int|
            0 <= j < i ==> peers.contains_key(base64_standard((#[trigger] ops[j]).node_public_key))
                && ops[j].node_public_key.len() == NODE_PUBLIC_KEY_LEN)
    {
        let i = choose|i: int|
            0 <= i < ops.len() && !peers.contains_key(base64_standard((#[trigger] ops[i]).node_public_key))
                && (forall|j: int|
                0 <= j < i ==> peers.contains_key(base64_standard((#[trigger] ops[j]).node_public_key))
                    && ops[j].node_public_key.len() == NODE_PUBLIC_KEY_LEN);
        if end < i {
            assert(discovered(peers, ops[end]) && node_key_well_formed(ops[end]));
        }
        if i < end {
            assert(discovered(peers, ops[i]));
        }
    }
}

/// A launched committee counts every operator, needs `THRESHOLD` shares,
/// and lists for each operator, in order, its id, its key share, its node
/// key and its address: the IP its node was discovered at, with this
/// node's base port.
pub proof fn law_launched_committee_lists_every_operator(
    validator: ValidatorView,
    ops: Seq<OperatorView>,
    peers: Map<Seq<char>, IpAddress>,
    name: Seq<u8>,
    base_port: u16,
)
    requires
        ops.len() <= u64::MAX,
        planned_start(validator, false, Some(ops), peers, name, base_port) is Launch,
    ensures
        ({
            let c = planned_start(validator, false, Some(ops), peers, name, base_port)->Launch_committee;
            &&& c.total == ops.len()
            &&& c.threshold == 3
            &&& c.validator_id == validator.id
            &&& c.validator_public_key == validator.validator_public_key
            &&& c.operator_ids.len() == ops.len()
            &&& c.operator_public_keys.len() == ops.len()
            &&& c.node_public_keys.len() == ops.len()
            &&& c.base_socket_addresses.len() == ops.len()
            &&& forall|i: int|
                0 <= i < ops.len() ==> {
                    &&& c.operator_ids[i] == (#[trigger] ops[i]).id
                    &&& c.operator_public_keys[i] == ops[i].shared_public_key
                    &&& c.node_public_keys[i] == ops[i].node_public_key
                    &&& c.node_public_keys[i].len() == NODE_PUBLIC_KEY_LEN
                    &&& peers.contains_key(base64_standard(ops[i].node_public_key))
                    &&& c.base_socket_addresses[i] == SocketAddress {
                        ip: peers[base64_standard(ops[i].node_public_key)],
                        port: base_port,
                    }
                }
        }),
{
    law_launch_iff_operators_ready(validator, ops, peers, name, base_port);
    lemma_start_walk_end(ops, peers, 0);
}

/// Each share the node keeps is that of an operator whose node key is the
/// node's own, and the node keeps a share for each such operator: when no
/// operator names the node, it keeps none.
pub proof fn law_own_shares_are_this_nodes(ops: Seq<OperatorView>, name: Seq<u8>)
    ensures
        forall|k: int|
            0 <= k < own_shares(ops, name).len() ==> exists|i: int|
                0 <= i < ops.len() && (#[trigger] ops[i]).node_public_key == name && ops[i].id
                    == (#[trigger] own_shares(ops, name)[k]).operator_id && ops[i].encrypted_key
                    == own_shares(ops, name)[k].encrypted_key,
        (forall|i: int| 0 <= i < ops.len() ==> (#[trigger] ops[i]).node_public_key != name)
            ==> own_shares(ops, name).len() == 0,
        (exists|i: int| 0 <= i < ops.len() && (#[trigger] ops[i]).node_public_key == name)
            ==> own_shares(ops, name).len() > 0,
    decreases ops.len(),
{
    if ops.len() > 0 {
        let rest = ops.drop_last();
        law_own_shares_are_this_nodes(rest, name);
        assert forall|k: int|
            0 <= k < own_shares(ops, name).len() implies exists|i: int|
            0 <= i < ops.len() && (#[trigger] ops[i]).node_public_key == name && ops[i].id == (
            #[trigger] own_shares(ops, name)[k]).operator_id && ops[i].encrypted_key
                == own_shares(ops, name)[k].encrypted_key by {
            if k < own_shares(rest, name).len() {
                let i = choose|i: int|
                    0 <= i < rest.len() && (#[trigger] rest[i]).node_public_key == name
                        && rest[i].id == (#[trigger] own_shares(rest, name)[k]).operator_id
                        && rest[i].encrypted_key == own_shares(rest, name)[k].encrypted_key;
                assert(ops[i] == rest[i]);
            } else {
                assert(ops[ops.len() - 1] == ops.last());
            }
        }
        if forall|i: int| 0 <= i < ops.len() ==> (#[trigger] ops[i]).node_public_key != name {
            assert forall|i: int| 0 <= i < rest.len() implies (#[trigger] rest[i]).node_public_key
                != name by {
                assert(rest[i] == ops[i]);
            }
            assert(ops[ops.len() - 1] == ops.last());
        }
        if exists|i: int| 0 <= i < ops.len() && (#[trigger] ops[i]).node_public_key == name {
            let i = choose|i: int| 0 <= i < ops.len() && (#[trigger] ops[i]).node_public_key == name;
            if i < ops.len() - 1 {
                assert(rest[i] == ops[i]);
            }
        }
    }
}

/// Stopping a validator that a start launched with a share of this node
/// removes the password file of the first share that the start kept.
pub proof fn law_stop_removes_launched_share(
    validator: ValidatorView,
    key_text: Seq<char>,
    ops: Seq<OperatorView>,
    peers: Map<Seq<char>, IpAddress>,
    name: Seq<u8>,
    base_port: u16,
)
    requires
        planned_start(validator, false, Some(ops), peers, name, base_port) is Launch,
        planned_start(validator, false, Some(ops), peers, name, base_port)->Launch_own_shares.len() > 0,
    ensures
        planned_stop(validator, key_text, Some(ops), name).password_file == PasswordFileView::Remove(
            password_file_name(
                key_text,
                planned_start(validator, false, Some(ops), peers, name, base_port)->Launch_own_shares[0].operator_id,
            ),
        ),
{
    law_launch_iff_operators_ready(validator, ops, peers, name, base_port);
    lemma_start_walk_end(ops, peers, 0);
    lemma_stop_search_end(ops, name, 0);
    assert(ops.take(ops.len() as int) =~= ops);
    lemma_first_own_share(ops, name);
    let end = stop_search_end(ops, name, 0);
    let first = choose|i: int|
        0 <= i < ops.len() && ops[i].node_public_key == name && (forall|j: int|
            0 <= j < i ==> (#[trigger] ops[j]).node_public_key != name) && own_shares(
            ops,
            name,
        )[0].operator_id == ops[i].id;
    if end < first {
        assert(node_key_well_formed(ops[end]));
    }
    if first < end {
        assert(ops[first].node_public_key != name);
    }
}

/// The first share kept is that of the first operator that names the node.
proof fn lemma_first_own_share(ops: Seq<OperatorView>, name: Seq<u8>)
    requires
        own_shares(ops, name).len() > 0,
    ensures
        exists|i: int|
            0 <= i < ops.len() && ops[i].node_public_key == name && (forall|j: int|
                0 <= j < i ==> (#[trigger] ops[j]).node_public_key != name) && own_shares(
                ops,
                name,
            )[0].operator_id == ops[i].id,
    decreases ops.len(),
{
    let rest = ops.drop_last();
    if own_shares(rest, name).len() > 0 {
        lemma_first_own_share(rest, name);
        let i = choose|i: int|
            0 <= i < rest.len() && rest[i].node_public_key == name && (forall|j: int|
                0 <= j < i ==> (#[trigger] rest[j]).node_public_key != name) && own_shares(
                rest,
                name,
            )[0].operator_id == rest[i].id;
        assert(ops[i] == rest[i]);
        assert forall|j: int| 0 <= j < i implies (#[trigger] ops[j]).node_public_key != name by {
            assert(ops[j] == rest[j]);
        }
    } else {
        law_own_shares_are_this_nodes(rest, name);
        let i = ops.len() - 1;
        assert(ops[i] == ops.last());
        assert forall|j: int| 0 <= j < i implies (#[trigger] ops[j]).node_public_key != name by {
            assert(ops[j] == rest[j]);
        }
    }
}

/// The value of a decimal digit character.
pub open spec fn digit_value(c: char) -> nat {
    if c == '1' {
        1
    } else if c == '2' {
        2
    } else if c == '3' {
        3
    } else if c == '4' {
        4
    } else if c == '5' {
        5
    } else if c == '6' {
        6
    } else if c == '7' {
        7
    } else if c == '8' {
        8
    } else if c == '9' {
        9
    } else {
        0
    }
}

/// The number that a text of decimal digits denotes.
pub open spec fn decimal_value(s: Seq<char>) -> nat
    decreases s.len(),
{
    if s.len() == 0 {
        0
    } else {
        decimal_value(s.drop_last()) * 10 + digit_value(s.last())
    }
}

/// Reading the decimal text of a number gives the number back.
pub proof fn law_decimal_reads_back(n: nat)
    ensures
        decimal_value(decimal(n)) == n,
    decreases n,
{
    let d = n % 10;
    assert(digit_value(digit_char(d)) == d);
    if n >= 10 {
        law_decimal_reads_back(n / 10);
        assert(decimal(n).drop_last() =~= decimal(n / 10));
        assert(decimal(n).last() == digit_char(d));
        assert(decimal(n).len() > 0);
        assert(decimal_value(decimal(n)) == decimal_value(decimal(n).drop_last()) * 10
            + digit_value(decimal(n).last()));
    } else {
        assert(decimal(n).drop_last() =~= Seq::<char>::empty());
        assert(decimal(n).last() == digit_char(n));
        assert(decimal(n).len() > 0);
        assert(decimal_value(decimal(n)) == decimal_value(decimal(n).drop_last()) * 10
            + digit_value(decimal(n).last()));
    }
}

/// Distinct validators have distinct database entries.
pub proof fn law_database_entries_distinct(
    a: ValidatorView,
    b: ValidatorView,
    key_text_a: Seq<char>,
    key_text_b: Seq<char>,
    ops_a: Option<Seq<OperatorView>>,
    ops_b: Option<Seq<OperatorView>>,
    name: Seq<u8>,
)
    requires
        a.id != b.id,
    ensures
        planned_stop(a, key_text_a, ops_a, name).database_entry != planned_stop(
            b,
            key_text_b,
            ops_b,
            name,
        ).database_entry,
{
    law_decimal_reads_back(a.id as nat);
    law_decimal_reads_back(b.id as nat);
}

/// A start of a validator whose directory exists does nothing, whatever
/// else holds.
pub proof fn law_present_validator_is_left_alone(
    validator: ValidatorView,
    operators: Option<Seq<OperatorView>>,
    peers: Map<Seq<char>, IpAddress>,
    name: Seq<u8>,
    base_port: u16,
)
    ensures
        planned_start(validator, true, operators, peers, name, base_port)
            == StartOutcomeView::AlreadyPresent,
{
}

/// A node that knows only itself reaches an operator entry that names it at
/// its own base address.
pub proof fn law_fresh_node_reaches_itself(config: NodeConfig, name: Seq<u8>, op: OperatorView)
    requires
        op.node_public_key == name,
    ensures
        discovered(fresh_peers(config, name), op),
        operator_address(fresh_peers(config, name), op, config.base_address.port)
            == config.base_address,
{
}


/// A text of decimal digits without a leading zero, as a number prints.
pub open spec fn canonical_decimal(s: Seq<char>) -> bool {
    &&& s.len() > 0
    &&& forall|i: int| 0 <= i < s.len() ==> '0' <= #[trigger] s[i] <= '9'
    &&& (s[0] == '0' ==> s.len() == 1)
}

/// The decimal text of a number is made of digits, has no leading zero, and
/// reads back as the number.
pub proof fn law_decimal_is_canonical(n: nat)
    ensures
        canonical_decimal(decimal(n)),
        decimal_value(decimal(n)) == n,
    decreases n,
{
    law_decimal_reads_back(n);
    assert('0' <= digit_char(n % 10) <= '9');
    if n < 10 {
        assert(decimal(n) =~= seq![digit_char(n)]);
        assert(decimal(n)[0] == digit_char(n));
    } else {
        law_decimal_is_canonical(n / 10);
        let s = decimal(n);
        let t = decimal(n / 10);
        assert(s =~= t.push(digit_char(n % 10)));
        assert forall|i: int| 0 <= i < s.len() implies '0' <= #[trigger] s[i] <= '9' by {
            if i < t.len() {
                assert(s[i] == t[i]);
            }
        }
        assert(s[0] == t[0]);
        assert(t.len() >= 1);
        if t[0] == '0' {
            assert(t =~= seq![t[0]]);
            assert(t.drop_last() =~= Seq::<char>::empty());
            assert(t.last() == '0');
            assert(decimal_value(t.drop_last()) == 0);
            assert(digit_value(t.last()) == 0);
            assert(decimal_value(t) == decimal_value(t.drop_last()) * 10 + digit_value(t.last()));
        }
    }
}

/// The name of a share's password file is the validator's key text, then
/// `_`, then the operator id in decimal, which reads back as the id.
pub proof fn law_password_file_name_parts(key_text: Seq<char>, operator_id: u64)
    ensures
        ({
            let f = password_file_name(key_text, operator_id);
            &&& f.len() > key_text.len() + 1
            &&& f.subrange(0, key_text.len() as int) == key_text
            &&& f[key_text.len() as int] == '_'
            &&& canonical_decimal(f.subrange(key_text.len() as int + 1, f.len() as int))
            &&& decimal_value(f.subrange(key_text.len() as int + 1, f.len() as int)) == operator_id
        }),
{
    law_decimal_is_canonical(operator_id as nat);
    let f = password_file_name(key_text, operator_id);
    let d = decimal(operator_id as nat);
    assert(f.subrange(0, key_text.len() as int) =~= key_text);
    assert(f.subrange(key_text.len() as int + 1, f.len() as int) =~= d);
}

/// A start decides by the directory, then by the operators: it does nothing
/// exactly when the directory exists; it reports unknown operators exactly
/// when the contract listed none; a retry names an operator that is not
/// discovered, a failure names one that is discovered with a node key of the
/// wrong length, and every operator before either is discovered with a
/// well-formed key; the shares kept are those of operators before that
/// point whose node key is the node's own; a launch names the started
/// validator and its key.
pub proof fn law_start_outcomes(
    validator: ValidatorView,
    directory_exists: bool,
    operators: Option<Seq<OperatorView>>,
    peers: Map<Seq<char>, IpAddress>,
    name: Seq<u8>,
    base_port: u16,
)
    ensures
        ({
            let r = planned_start(validator, directory_exists, operators, peers, name, base_port);
            &&& (r is AlreadyPresent <==> directory_exists)
            &&& (r is OperatorsUnknown <==> !directory_exists && operators is None)
            &&& (r matches StartOutcomeView::Retry { operator_index: i, own_shares: sh } ==> {
                &&& operators matches Some(ops)
                &&& 0 <= i < ops.len()
                &&& !peers.contains_key(base64_standard(ops[i].node_public_key))
                &&& forall|j: int| 0 <= j < i ==> peers.contains_key(
                    base64_standard((#[trigger] ops[j]).node_public_key),
                ) && ops[j].node_public_key.len() == NODE_PUBLIC_KEY_LEN
                &&& forall|k: int| 0 <= k < sh.len() ==> exists|j: int|
                    0 <= j < i && (#[trigger] ops[j]).node_public_key == name && ops[j].id == (
                    #[trigger] sh[k]).operator_id && ops[j].encrypted_key == sh[k].encrypted_key
            })
            &&& (r matches StartOutcomeView::MalformedNodeKey { operator_index: i, own_shares: sh } ==> {
                &&& operators matches Some(ops)
                &&& 0 <= i < ops.len()
                &&& peers.contains_key(base64_standard(ops[i].node_public_key))
                &&& ops[i].node_public_key.len() != NODE_PUBLIC_KEY_LEN
                &&& forall|j: int| 0 <= j < i ==> peers.contains_key(
                    base64_standard((#[trigger] ops[j]).node_public_key),
                ) && ops[j].node_public_key.len() == NODE_PUBLIC_KEY_LEN
                &&& forall|k: int| 0 <= k < sh.len() ==> exists|j: int|
                    0 <= j < i && (#[trigger] ops[j]).node_public_key == name && ops[j].id == (
                    #[trigger] sh[k]).operator_id && ops[j].encrypted_key == sh[k].encrypted_key
            })
            &&& (r matches StartOutcomeView::Launch { committee: c, own_shares: sh } ==> {
                &&& operators matches Some(ops)
                &&& c.validator_id == validator.id
                &&& c.validator_public_key == validator.validator_public_key
                &&& forall|k: int| 0 <= k < sh.len() ==> exists|j: int|
                    0 <= j < ops.len() && (#[trigger] ops[j]).node_public_key == name && ops[j].id
                        == (#[trigger] sh[k]).operator_id && ops[j].encrypted_key
                        == sh[k].encrypted_key
            })
        }),
{
    if !directory_exists {
        if let Some(ops) = operators {
            lemma_start_walk_end(ops, peers, 0);
            let end = start_walk_end(ops, peers, 0);
            let pre = ops.take(end);
            law_own_shares_are_this_nodes(pre, name);
            let sh = own_shares(pre, name);
            assert forall|k: int| 0 <= k < sh.len() implies exists|j: int|
                0 <= j < end && (#[trigger] ops[j]).node_public_key == name && ops[j].id == (
                #[trigger] sh[k]).operator_id && ops[j].encrypted_key == sh[k].encrypted_key by {
                let j = choose|j: int|
                    0 <= j < pre.len() && (#[trigger] pre[j]).node_public_key == name && pre[j].id
                        == (#[trigger] sh[k]).operator_id && pre[j].encrypted_key
                        == sh[k].encrypted_key;
                assert(pre[j] == ops[j]);
            }
            if end < ops.len() {
                assert(!(discovered(peers, ops[end]) && node_key_well_formed(ops[end])));
            }
            assert forall|j: int| 0 <= j < end implies peers.contains_key(
                base64_standard((#[trigger] ops[j]).node_public_key),
            ) && ops[j].node_public_key.len() == NODE_PUBLIC_KEY_LEN by {
                assert(discovered(peers, ops[j]) && node_key_well_formed(ops[j]));
            }
            assert(pre.len() == end);
        }
    }
}

/// A stop names the stopped validator; its database entry is that
/// validator's id in decimal; it reports unknown operators exactly when the
/// contract listed none; the password file it removes is that of the first
/// operator whose node key is the node's own, named by the validator's key
/// text, `_` and that operator's id; it fails at an operator whose node key
/// has the wrong length only when no earlier operator is the node; and when
/// no operator is the node, every node key is well formed.
pub proof fn law_stop_plan(
    validator: ValidatorView,
    key_text: Seq<char>,
    operators: Option<Seq<OperatorView>>,
    name: Seq<u8>,
)
    ensures
        ({
            let p = planned_stop(validator, key_text, operators, name);
            &&& p.validator_id == validator.id
            &&& canonical_decimal(p.database_entry)
            &&& decimal_value(p.database_entry) == validator.id
            &&& (p.password_file is OperatorsUnknown <==> operators is None)
            &&& (p.password_file matches PasswordFileView::Remove(f) ==> operators matches Some(ops)
                && exists|i: int| {
                &&& 0 <= i < ops.len()
                &&& (#[trigger] ops[i]).node_public_key == name
                &&& ops[i].node_public_key.len() == NODE_PUBLIC_KEY_LEN
                &&& (forall|j: int| 0 <= j < i ==> (#[trigger] ops[j]).node_public_key != name
                    && ops[j].node_public_key.len() == NODE_PUBLIC_KEY_LEN)
                &&& f.len() > key_text.len() + 1
                &&& f.subrange(0, key_text.len() as int) == key_text
                &&& f[key_text.len() as int] == '_'
                &&& canonical_decimal(f.subrange(key_text.len() as int + 1, f.len() as int))
                &&& decimal_value(f.subrange(key_text.len() as int + 1, f.len() as int)) == ops[i].id
            })
            &&& (p.password_file matches PasswordFileView::MalformedNodeKey(i) ==> {
                &&& operators matches Some(ops)
                &&& 0 <= i < ops.len()
                &&& ops[i].node_public_key.len() != NODE_PUBLIC_KEY_LEN
                &&& forall|j: int| 0 <= j < i ==> (#[trigger] ops[j]).node_public_key != name
                    && ops[j].node_public_key.len() == NODE_PUBLIC_KEY_LEN
            })
            &&& (p.password_file is NotAnOperator ==> {
                &&& operators matches Some(ops)
                &&& forall|j: int| 0 <= j < ops.len() ==> (#[trigger] ops[j]).node_public_key
                    != name && ops[j].node_public_key.len() == NODE_PUBLIC_KEY_LEN
            })
        }),
{
    law_decimal_is_canonical(validator.id as nat);
    if let Some(ops) = operators {
        lemma_stop_search_end(ops, name, 0);
        let end = stop_search_end(ops, name, 0);
        if end < ops.len() && node_key_well_formed(ops[end]) {
            law_password_file_name_parts(key_text, ops[end].id);
        }
    }
}

/// Every listening address binds all interfaces, `0.0.0.0`, on the
/// configured port.
pub proof fn law_listen_on_every_interface(addr: SocketAddress)
    ensures
        wildcard(addr) == (SocketAddress { ip: IpAddress::V4(0), port: addr.port }),
        unspecified_ipv4() == IpAddress::V4(0),
{
}

/// A node that has just been created knows exactly one peer: itself, by the
/// base64 text of its key, at the IP of its base address.
pub proof fn law_fresh_node_knows_only_itself(config: NodeConfig, name: Seq<u8>, key: Seq<char>)
    ensures
        fresh_peers(config, name).contains_key(key) <==> key == base64_standard(name),
        fresh_peers(config, name).contains_key(key) ==> fresh_peers(config, name)[key]
            == config.base_address.ip,
{
}

/// The 6-bit value of a character of the standard base64 alphabet.
pub open spec fn base64_digit_value(c: char) -> nat {
    if 'A' <= c <= 'Z' {
        (c as nat - 65) as nat
    } else if 'a' <= c <= 'z' {
        (c as nat - 97 + 26) as nat
    } else if '0' <= c <= '9' {
        (c as nat - 48 + 52) as nat
    } else if c == '+' {
        62
    } else {
        63
    }
}

/// The bytes that a padded base64 text stands for, four characters at a time.
pub open spec fn base64_bytes(text: Seq<char>) -> Seq<u8>
    decreases text.len(),
{
    if text.len() < 4 {
        Seq::empty()
    } else {
        let a = base64_digit_value(text[0]);
        let b = base64_digit_value(text[1]);
        let c = base64_digit_value(text[2]);
        let d = base64_digit_value(text[3]);
        let first = (a * 4 + b / 16) as u8;
        let second = ((b % 16) * 16 + c / 4) as u8;
        let third = ((c % 4) * 64 + d) as u8;
        if text[2] == '=' {
            seq![first]
        } else if text[3] == '=' {
            seq![first, second]
        } else {
            seq![first, second, third] + base64_bytes(text.subrange(4, text.len() as int))
        }
    }
}

proof fn lemma_base64_char(v: nat)
    requires
        v < 64,
    ensures
        base64_digit_value(crate::keys::base64_char(v)) == v,
        crate::keys::base64_char(v) != '=',
{
}

proof fn lemma_base64_group(x: nat, y: nat, z: nat)
    requires
        x < 256,
        y < 256,
        z < 256,
    ensures
        (x / 4) * 4 + ((x % 4) * 16 + y / 16) / 16 == x,
        (((x % 4) * 16 + y / 16) % 16) * 16 + ((y % 16) * 4 + z / 64) / 4 == y,
        (((y % 16) * 4 + z / 64) % 4) * 64 + z % 64 == z,
        ((y % 16) * 4) / 4 == y % 16,
        x / 4 < 64,
        (x % 4) * 16 + y / 16 < 64,
        (y % 16) * 4 + z / 64 < 64,
        z % 64 < 64,
        (x % 4) * 16 < 64,
        (y % 16) * 4 < 64,
        ((x % 4) * 16) / 16 == x % 4,
        (x / 4) * 4 + x % 4 == x,
        (((x % 4) * 16 + y / 16) % 16) * 16 + ((y % 16) * 4) / 4 == y,
{
    assert((x / 4) * 4 + ((x % 4) * 16 + y / 16) / 16 == x) by (nonlinear_arith)
        requires x < 256, y < 256;
    assert((((x % 4) * 16 + y / 16) % 16) * 16 + ((y % 16) * 4 + z / 64) / 4 == y) by (nonlinear_arith)
        requires x < 256, y < 256, z < 256;
    assert((((y % 16) * 4 + z / 64) % 4) * 64 + z % 64 == z) by (nonlinear_arith)
        requires y < 256, z < 256;
    assert(((y % 16) * 4) / 4 == y % 16) by (nonlinear_arith)
        requires y < 256;
    assert((x / 4) * 4 + x % 4 == x) by (nonlinear_arith);
    assert(((x % 4) * 16) / 16 == x % 4) by (nonlinear_arith);
    assert((((x % 4) * 16 + y / 16) % 16) * 16 + ((y % 16) * 4) / 4 == y) by (nonlinear_arith)
        requires x < 256, y < 256;
}

/// Reading back the base64 text of bytes gives the bytes: distinct node
/// keys have distinct key texts in the peer directory.
pub proof fn law_base64_reads_back(bytes: Seq<u8>)
    ensures
        base64_bytes(base64_standard(bytes)) == bytes,
    decreases bytes.len(),
{
    let t = base64_standard(bytes);
    if bytes.len() == 0 {
        assert(bytes =~= Seq::<u8>::empty());
    } else {
        let x = bytes[0] as nat;
        let y = if bytes.len() > 1 { bytes[1] as nat } else { 0 };
        let z = if bytes.len() > 2 { bytes[2] as nat } else { 0 };
        lemma_base64_group(x, y, z);
        lemma_base64_char(x / 4);
        lemma_base64_char((x % 4) * 16);
        lemma_base64_char((x % 4) * 16 + y / 16);
        lemma_base64_char((y % 16) * 4);
        lemma_base64_char((y % 16) * 4 + z / 64);
        lemma_base64_char(z % 64);
        assert(t.len() >= 4);
        if bytes.len() == 1 {
            assert(base64_bytes(t) =~= bytes);
        } else if bytes.len() == 2 {
            assert(base64_bytes(t) =~= bytes);
        } else {
            let rest = bytes.subrange(3, bytes.len() as int);
            law_base64_reads_back(rest);
            assert(t.subrange(4, t.len() as int) =~= base64_standard(rest));
            assert(bytes =~= seq![bytes[0], bytes[1], bytes[2]] + rest);
            assert(base64_bytes(t) =~= bytes);
        }
    }
}

/// Distinct node keys have distinct base64 texts.
pub proof fn law_base64_distinct(a: Seq<u8>, b: Seq<u8>)
    requires
        a != b,
    ensures
        base64_standard(a) != base64_standard(b),
{
    law_base64_reads_back(a);
    law_base64_reads_back(b);
}

/// The operators whose node key is `name`, in list order.
pub open spec fn operators_named(ops: Seq<OperatorView>, name: Seq<u8>) -> Seq<OperatorView> {
    ops.filter(|o: OperatorView| o.node_public_key == name)
}

/// The shares the node keeps are, in list order, one for each operator whose
/// node key is the node's own, with that operator's id and encrypted key.
pub proof fn law_own_shares_follow_named_operators(ops: Seq<OperatorView>, name: Seq<u8>)
    ensures
        own_shares(ops, name).len() == operators_named(ops, name).len(),
        forall|k: int|
            0 <= k < own_shares(ops, name).len() ==> (#[trigger] own_shares(ops, name)[k]).operator_id
                == operators_named(ops, name)[k].id && own_shares(ops, name)[k].encrypted_key
                == operators_named(ops, name)[k].encrypted_key,
    decreases ops.len(),
{
    reveal(Seq::filter);
    if ops.len() > 0 {
        law_own_shares_follow_named_operators(ops.drop_last(), name);
        let f = |o: OperatorView| o.node_public_key == name;
        assert(ops.filter(f) == (if f(ops.last()) {
            ops.drop_last().filter(f).push(ops.last())
        } else {
            ops.drop_last().filter(f)
        }));
    }
}

} // verus!
