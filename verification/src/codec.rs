//! The canonical bytes of a transaction's payload, over which it is signed
//! and by whose hash it is known.
//!
//! The bytes are the sender's key or address, the nonce in eight
//! little-endian bytes, one byte that tells the method, and the fields of the
//! method in their order. Numbers are little-endian, a field that may be
//! absent is led by a byte that is 1 where it is there and 0 where it is not,
//! and a list is led by its length in eight bytes.

use crate::hashing::{blake3, blake3_hash, Digest};
use crate::keys::{IpAddress, NodeIndex};
use crate::transaction::{TransactionSender, UpdateMethod, UpdatePayload};
use crate::types::{NodePorts, ProtocolParams, ReputationMeasurements, Tokens};
use crate::wire::{le_bytes, push_le};
use vstd::prelude::*;

verus! {

/// The sixteen bytes of a 128-bit number: its low half, then its high half.
pub open spec fn u128_bytes(v: u128) -> Seq<u8> {
    le_bytes((v % 0x1_0000_0000_0000_0000) as nat, 8).add(
        le_bytes((v / 0x1_0000_0000_0000_0000) as nat, 8),
    )
}

/// The byte of a token.
pub open spec fn token_byte(token: Tokens) -> u8 {
    match token {
        Tokens::FLK => 0,
        Tokens::USDC => 1,
    }
}

/// The byte of a protocol parameter.
pub open spec fn param_byte(param: ProtocolParams) -> u8 {
    match param {
        ProtocolParams::EpochTime => 0,
        ProtocolParams::CommitteeSize => 1,
        ProtocolParams::MinimumNodeStake => 2,
        ProtocolParams::EligibilityTime => 3,
        ProtocolParams::LockTime => 4,
        ProtocolParams::ProtocolShare => 5,
        ProtocolParams::NodeShare => 6,
        ProtocolParams::ServiceBuilderShare => 7,
        ProtocolParams::MaxInflation => 8,
        ProtocolParams::MaxBoost => 9,
        ProtocolParams::MaxStakeLockTime => 10,
    }
}

/// A field that may be absent.
pub open spec fn optional(body: Option<Seq<u8>>) -> Seq<u8> {
    match body {
        Some(b) => seq![1u8].add(b),
        None => seq![0u8],
    }
}

/// Bytes that may be absent, led by their number where they are there.
pub open spec fn optional_blob(blob: Option<Vec<u8>>) -> Seq<u8> {
    optional(
        match blob {
            Some(m) => Some(le_bytes(m@.len(), 8).add(m@)),
            None => None,
        },
    )
}

/// The bytes of an internet address: its family, 4 or 6, and its octets.
pub open spec fn ip_bytes(ip: IpAddress) -> Seq<u8> {
    match ip {
        IpAddress::V4(a) => seq![4u8].add(a@),
        IpAddress::V6(a) => seq![6u8].add(a@),
    }
}

/// The bytes of a node's ports.
pub open spec fn ports_bytes(p: NodePorts) -> Seq<u8> {
    le_bytes(p.primary as nat, 2).add(le_bytes(p.worker as nat, 2)).add(
        le_bytes(p.mempool as nat, 2),
    ).add(le_bytes(p.rpc as nat, 2)).add(le_bytes(p.pool as nat, 2)).add(
        le_bytes(p.dht as nat, 2),
    ).add(le_bytes(p.pinger as nat, 2)).add(le_bytes(p.handshake.http as nat, 2)).add(
        le_bytes(p.handshake.webrtc as nat, 2),
    ).add(le_bytes(p.handshake.webtransport as nat, 2))
}

/// A number that may be negative: a byte that is 1 where it is, and its
/// magnitude in eight bytes.
pub open spec fn signed_bytes(v: i64) -> Seq<u8> {
    if v < 0 {
        seq![1u8].add(le_bytes((-v) as nat, 8))
    } else {
        seq![0u8].add(le_bytes(v as nat, 8))
    }
}

/// The bytes of one node's measurements of another.
pub open spec fn measurements_bytes(m: ReputationMeasurements) -> Seq<u8> {
    optional(
        match m.latency {
            Some(v) => Some(le_bytes(v as nat, 8)),
            None => None,
        },
    ).add(
        optional(
            match m.interactions {
                Some(v) => Some(signed_bytes(v)),
                None => None,
            },
        ),
    ).add(
        optional(
            match m.inbound_bandwidth {
                Some(v) => Some(u128_bytes(v)),
                None => None,
            },
        ),
    ).add(
        optional(
            match m.outbound_bandwidth {
                Some(v) => Some(u128_bytes(v)),
                None => None,
            },
        ),
    ).add(
        optional(
            match m.bytes_received {
                Some(v) => Some(u128_bytes(v)),
                None => None,
            },
        ),
    ).add(
        optional(
            match m.bytes_sent {
                Some(v) => Some(u128_bytes(v)),
                None => None,
            },
        ),
    ).add(
        optional(
            match m.uptime {
                Some(v) => Some(seq![v]),
                None => None,
            },
        ),
    ).add(
        optional(
            match m.hops {
                Some(v) => Some(seq![v]),
                None => None,
            },
        ),
    )
}

/// The bytes of the first `upto` entries of a list of measurements: the index
/// of the node that was measured, then the measurements.
pub open spec fn report_list_bytes(list: Seq<(NodeIndex, ReputationMeasurements)>, upto: int) -> Seq<
    u8,
>
    decreases upto,
{
    if upto <= 0 {
        Seq::empty()
    } else {
        report_list_bytes(list, upto - 1).add(le_bytes(list[upto - 1].0 as nat, 4)).add(
            measurements_bytes(list[upto - 1].1),
        )
    }
}

/// The bytes of the sender: the key of a node or the address of an account.
pub open spec fn sender_bytes(sender: TransactionSender) -> Seq<u8> {
    match sender {
        TransactionSender::NodeMain(k) => k@,
        TransactionSender::AccountOwner(a) => a@,
    }
}

/// The byte that tells the method.
pub open spec fn method_tag(method: UpdateMethod) -> u8 {
    match method {
        UpdateMethod::Deposit { .. } => 0,
        UpdateMethod::Withdraw { .. } => 1,
        UpdateMethod::Transfer { .. } => 2,
        UpdateMethod::Stake { .. } => 3,
        UpdateMethod::StakeLock { .. } => 4,
        UpdateMethod::Unstake { .. } => 5,
        UpdateMethod::WithdrawUnstaked { .. } => 6,
        UpdateMethod::ChangeEpoch { .. } => 7,
        UpdateMethod::SubmitDeliveryAcknowledgmentAggregation { .. } => 8,
        UpdateMethod::SubmitReputationMeasurements { .. } => 9,
        UpdateMethod::ChangeProtocolParam { .. } => 10,
        UpdateMethod::OptIn { .. } => 11,
        UpdateMethod::OptOut { .. } => 12,
    }
}

/// The bytes of the fields of a method.
pub open spec fn method_body(method: UpdateMethod) -> Seq<u8> {
    match method {
        UpdateMethod::Deposit { proof, token, amount } => seq![token_byte(token)].add(
            u128_bytes(amount),
        ),
        UpdateMethod::Withdraw { amount, token, receiving_address } => u128_bytes(amount).push(
            token_byte(token),
        ).add(receiving_address@),
        UpdateMethod::Transfer { amount, token, to } => u128_bytes(amount).push(
            token_byte(token),
        ).add(to@),
        UpdateMethod::Stake {
            amount,
            node_public_key,
            consensus_key,
            node_domain,
            worker_public_key,
            worker_domain,
            ports,
        } => u128_bytes(amount).add(node_public_key@).add(
            optional(
                match consensus_key {
                    Some(k) => Some(k@),
                    None => None,
                },
            ),
        ).add(
            optional(
                match node_domain {
                    Some(d) => Some(ip_bytes(d)),
                    None => None,
                },
            ),
        ).add(
            optional(
                match worker_public_key {
                    Some(k) => Some(k@),
                    None => None,
                },
            ),
        ).add(
            optional(
                match worker_domain {
                    Some(d) => Some(ip_bytes(d)),
                    None => None,
                },
            ),
        ).add(
            optional(
                match ports {
                    Some(p) => Some(ports_bytes(p)),
                    None => None,
                },
            ),
        ),
        UpdateMethod::StakeLock { node, locked_for } => node@.add(le_bytes(locked_for as nat, 8)),
        UpdateMethod::Unstake { amount, node } => u128_bytes(amount).add(node@),
        UpdateMethod::WithdrawUnstaked { node, recipient } => node@.add(
            optional(
                match recipient {
                    Some(r) => Some(r@),
                    None => None,
                },
            ),
        ),
        UpdateMethod::ChangeEpoch { epoch } => le_bytes(epoch as nat, 8),
        UpdateMethod::SubmitDeliveryAcknowledgmentAggregation {
            commodity,
            service_id,
            proofs,
            metadata,
        } => u128_bytes(commodity).add(le_bytes(service_id as nat, 4)).add(
            le_bytes(proofs@.len(), 8),
        ).add(optional_blob(metadata)),
        UpdateMethod::SubmitReputationMeasurements { measurements } => le_bytes(
            measurements@.len(),
            8,
        ).add(report_list_bytes(measurements@, measurements@.len() as int)),
        UpdateMethod::ChangeProtocolParam { param, value } => seq![param_byte(param)].add(
            u128_bytes(value),
        ),
        UpdateMethod::OptIn {  } => Seq::empty(),
        UpdateMethod::OptOut {  } => Seq::empty(),
    }
}

/// The canonical bytes of a payload.
pub open spec fn payload_transcript(p: UpdatePayload) -> Seq<u8> {
    sender_bytes(p.sender).add(le_bytes(p.nonce as nat, 8)).push(method_tag(p.method)).add(
        method_body(p.method),
    )
}

/// The digest whose bytes are `bytes`.
pub open spec fn digest_of(bytes: Seq<u8>) -> Digest {
    choose|d: Digest| d@ == bytes
}

/// The digest of a payload: the BLAKE3 hash of its canonical bytes.
pub open spec fn payload_digest(p: UpdatePayload) -> Digest {
    digest_of(blake3_hash(payload_transcript(p)))
}

/// A digest is the digest of its own bytes.
pub proof fn lemma_digest_of(d: Digest)
    ensures
        digest_of(d@) == d,
{
    let c = digest_of(d@);
    assert(c@ == d@);
    assert(c =~= d);
}

/// Appends the bytes of an array.
pub fn push_array<const N: usize>(out: &mut Vec<u8>, a: &[u8; N])
    ensures
        final(out)@ == old(out)@.add(a@),
{
    let mut i: usize = 0;
    assert(out@ =~= old(out)@.add(a@.take(0)));
    while i < N
        invariant
            i <= N,
            out@ == old(out)@.add(a@.take(i as int)),
        decreases N - i,
    {
        out.push(a[i]);
        assert(out@ =~= old(out)@.add(a@.take(i + 1)));
        i += 1;
    }
    assert(a@.take(N as int) =~= a@);
}

/// Appends the bytes of a vector.
pub fn push_all(out: &mut Vec<u8>, bytes: &Vec<u8>)
    ensures
        final(out)@ == old(out)@.add(bytes@),
{
    let mut i: usize = 0;
    assert(out@ =~= old(out)@.add(bytes@.take(0)));
    while i < bytes.len()
        invariant
            i <= bytes.len(),
            out@ == old(out)@.add(bytes@.take(i as int)),
        decreases bytes.len() - i,
    {
        out.push(bytes[i]);
        assert(out@ =~= old(out)@.add(bytes@.take(i + 1)));
        i += 1;
    }
    assert(bytes@.take(bytes.len() as int) =~= bytes@);
}

/// Appends the sixteen bytes of a 128-bit number.
pub fn push_u128(out: &mut Vec<u8>, v: u128)
    ensures
        final(out)@ == old(out)@.add(u128_bytes(v)),
{
    let low: u64 = (v % 0x1_0000_0000_0000_0000) as u64;
    let high: u64 = (v / 0x1_0000_0000_0000_0000) as u64;
    push_le(out, low, 8);
    push_le(out, high, 8);
    assert(out@ =~= old(out)@.add(u128_bytes(v)));
}

pub fn push_token(out: &mut Vec<u8>, token: Tokens)
    ensures
        final(out)@ == old(out)@.push(token_byte(token)),
{
    match token {
        Tokens::FLK => out.push(0),
        Tokens::USDC => out.push(1),
    }
}

fn push_param(out: &mut Vec<u8>, param: ProtocolParams)
    ensures
        final(out)@ == old(out)@.push(param_byte(param)),
{
    let b: u8 = match param {
        ProtocolParams::EpochTime => 0,
        ProtocolParams::CommitteeSize => 1,
        ProtocolParams::MinimumNodeStake => 2,
        ProtocolParams::EligibilityTime => 3,
        ProtocolParams::LockTime => 4,
        ProtocolParams::ProtocolShare => 5,
        ProtocolParams::NodeShare => 6,
        ProtocolParams::ServiceBuilderShare => 7,
        ProtocolParams::MaxInflation => 8,
        ProtocolParams::MaxBoost => 9,
        ProtocolParams::MaxStakeLockTime => 10,
    };
    out.push(b);
}

pub fn push_ip(out: &mut Vec<u8>, ip: &IpAddress)
    ensures
        final(out)@ == old(out)@.add(ip_bytes(*ip)),
{
    match ip {
        IpAddress::V4(a) => {
            out.push(4);
            push_array(out, a);
        },
        IpAddress::V6(a) => {
            out.push(6);
            push_array(out, a);
        },
    }
    assert(out@ =~= old(out)@.add(ip_bytes(*ip)));
}

pub fn push_ports(out: &mut Vec<u8>, p: &NodePorts)
    ensures
        final(out)@ == old(out)@.add(ports_bytes(*p)),
{
    push_le(out, p.primary as u64, 2);
    push_le(out, p.worker as u64, 2);
    push_le(out, p.mempool as u64, 2);
    push_le(out, p.rpc as u64, 2);
    push_le(out, p.pool as u64, 2);
    push_le(out, p.dht as u64, 2);
    push_le(out, p.pinger as u64, 2);
    push_le(out, p.handshake.http as u64, 2);
    push_le(out, p.handshake.webrtc as u64, 2);
    push_le(out, p.handshake.webtransport as u64, 2);
    assert(out@ =~= old(out)@.add(ports_bytes(*p)));
}

fn push_optional_array<const N: usize>(out: &mut Vec<u8>, a: &Option<[u8; N]>)
    ensures
        final(out)@ == old(out)@.add(
            optional(
                match *a {
                    Some(k) => Some(k@),
                    None => None,
                },
            ),
        ),
{
    match a {
        Some(k) => {
            out.push(1);
            push_array(out, k);
            assert(out@ =~= old(out)@.add(seq![1u8].add(k@)));
        },
        None => {
            out.push(0);
            assert(out@ =~= old(out)@.add(seq![0u8]));
        },
    }
}

fn push_optional_ip(out: &mut Vec<u8>, ip: &Option<IpAddress>)
    ensures
        final(out)@ == old(out)@.add(
            optional(
                match *ip {
                    Some(d) => Some(ip_bytes(d)),
                    None => None,
                },
            ),
        ),
{
    match ip {
        Some(d) => {
            out.push(1);
            push_ip(out, d);
            assert(out@ =~= old(out)@.add(seq![1u8].add(ip_bytes(*d))));
        },
        None => {
            out.push(0);
            assert(out@ =~= old(out)@.add(seq![0u8]));
        },
    }
}

fn push_optional_u128(out: &mut Vec<u8>, v: Option<u128>)
    ensures
        final(out)@ == old(out)@.add(
            optional(
                match v {
                    Some(x) => Some(u128_bytes(x)),
                    None => None,
                },
            ),
        ),
{
    match v {
        Some(x) => {
            out.push(1);
            push_u128(out, x);
            assert(out@ =~= old(out)@.add(seq![1u8].add(u128_bytes(x))));
        },
        None => {
            out.push(0);
            assert(out@ =~= old(out)@.add(seq![0u8]));
        },
    }
}

pub fn push_optional_byte(out: &mut Vec<u8>, v: Option<u8>)
    ensures
        final(out)@ == old(out)@.add(
            optional(
                match v {
                    Some(x) => Some(seq![x]),
                    None => None,
                },
            ),
        ),
{
    match v {
        Some(x) => {
            out.push(1);
            out.push(x);
            assert(out@ =~= old(out)@.add(seq![1u8].add(seq![x])));
        },
        None => {
            out.push(0);
            assert(out@ =~= old(out)@.add(seq![0u8]));
        },
    }
}

fn push_signed(out: &mut Vec<u8>, v: i64)
    ensures
        final(out)@ == old(out)@.add(signed_bytes(v)),
{
    if v < 0 {
        out.push(1);
        let magnitude: u64 = (-(v + 1)) as u64 + 1;
        push_le(out, magnitude, 8);
        assert(out@ =~= old(out)@.add(seq![1u8].add(le_bytes((-v) as nat, 8))));
    } else {
        out.push(0);
        push_le(out, v as u64, 8);
        assert(out@ =~= old(out)@.add(seq![0u8].add(le_bytes(v as nat, 8))));
    }
}

fn push_optional_u64(out: &mut Vec<u8>, v: Option<u64>)
    ensures
        final(out)@ == old(out)@.add(
            optional(
                match v {
                    Some(x) => Some(le_bytes(x as nat, 8)),
                    None => None,
                },
            ),
        ),
{
    match v {
        Some(x) => {
            out.push(1);
            push_le(out, x, 8);
            assert(out@ =~= old(out)@.add(seq![1u8].add(le_bytes(x as nat, 8))));
        },
        None => {
            out.push(0);
            assert(out@ =~= old(out)@.add(seq![0u8]));
        },
    }
}

fn push_optional_signed(out: &mut Vec<u8>, v: Option<i64>)
    ensures
        final(out)@ == old(out)@.add(
            optional(
                match v {
                    Some(x) => Some(signed_bytes(x)),
                    None => None,
                },
            ),
        ),
{
    match v {
        Some(x) => {
            out.push(1);
            push_signed(out, x);
            assert(out@ =~= old(out)@.add(seq![1u8].add(signed_bytes(x))));
        },
        None => {
            out.push(0);
            assert(out@ =~= old(out)@.add(seq![0u8]));
        },
    }
}

fn push_optional_ports(out: &mut Vec<u8>, ports: &Option<NodePorts>)
    ensures
        final(out)@ == old(out)@.add(
            optional(
                match *ports {
                    Some(p) => Some(ports_bytes(p)),
                    None => None,
                },
            ),
        ),
{
    match ports {
        Some(p) => {
            out.push(1);
            push_ports(out, p);
            assert(out@ =~= old(out)@.add(seq![1u8].add(ports_bytes(*p))));
        },
        None => {
            out.push(0);
            assert(out@ =~= old(out)@.add(seq![0u8]));
        },
    }
}

fn push_optional_blob(out: &mut Vec<u8>, blob: &Option<Vec<u8>>)
    ensures
        final(out)@ == old(out)@.add(
            optional_blob(*blob),
        ),
{
    match blob {
        Some(m) => {
            out.push(1);
            push_le(out, m.len() as u64, 8);
            push_all(out, m);
            assert(out@ =~= old(out)@.add(seq![1u8].add(le_bytes(m@.len(), 8).add(m@))));
        },
        None => {
            out.push(0);
            assert(out@ =~= old(out)@.add(seq![0u8]));
        },
    }
}

/// Bytes that follow bytes that follow a beginning follow the beginning
/// together.
proof fn lemma_add_add(base: Seq<u8>, acc: Seq<u8>, next: Seq<u8>)
    ensures
        base.add(acc).add(next) == base.add(acc.add(next)),
{
    assert(base.add(acc).add(next) =~= base.add(acc.add(next)));
}

/// A byte that follows bytes that follow a beginning follows the beginning
/// with them.
proof fn lemma_add_push(base: Seq<u8>, acc: Seq<u8>, next: u8)
    ensures
        base.add(acc).push(next) == base.add(acc.push(next)),
{
    assert(base.add(acc).push(next) =~= base.add(acc.push(next)));
}

/// Nothing follows every beginning, and bytes that follow nothing are the
/// bytes.
proof fn lemma_add_nothing(base: Seq<u8>, next: Seq<u8>)
    ensures
        base.add(Seq::empty()) == base,
        Seq::<u8>::empty().add(next) == next,
        base.push(0u8) == base.add(seq![0u8]),
{
    assert(base.add(Seq::empty()) =~= base);
    assert(Seq::<u8>::empty().add(next) =~= next);
    assert(base.push(0u8) =~= base.add(seq![0u8]));
}

pub fn push_measurements(out: &mut Vec<u8>, m: &ReputationMeasurements)
    ensures
        final(out)@ == old(out)@.add(measurements_bytes(*m)),
{
    let ghost base = out@;
    push_optional_u64(out, m.latency);
    let ghost mut acc = optional(
        match m.latency {
            Some(v) => Some(le_bytes(v as nat, 8)),
            None => None,
        },
    );
    push_optional_signed(out, m.interactions);
    proof {
        let next = optional(
            match m.interactions {
                Some(v) => Some(signed_bytes(v)),
                None => None,
            },
        );
        lemma_add_add(base, acc, next);
        acc = acc.add(next);
    }
    push_optional_u128(out, m.inbound_bandwidth);
    proof {
        let next = optional(
            match m.inbound_bandwidth {
                Some(v) => Some(u128_bytes(v)),
                None => None,
            },
        );
        lemma_add_add(base, acc, next);
        acc = acc.add(next);
    }
    push_optional_u128(out, m.outbound_bandwidth);
    proof {
        let next = optional(
            match m.outbound_bandwidth {
                Some(v) => Some(u128_bytes(v)),
                None => None,
            },
        );
        lemma_add_add(base, acc, next);
        acc = acc.add(next);
    }
    push_optional_u128(out, m.bytes_received);
    proof {
        let next = optional(
            match m.bytes_received {
                Some(v) => Some(u128_bytes(v)),
                None => None,
            },
        );
        lemma_add_add(base, acc, next);
        acc = acc.add(next);
    }
    push_optional_u128(out, m.bytes_sent);
    proof {
        let next = optional(
            match m.bytes_sent {
                Some(v) => Some(u128_bytes(v)),
                None => None,
            },
        );
        lemma_add_add(base, acc, next);
        acc = acc.add(next);
    }
    push_optional_byte(out, m.uptime);
    proof {
        let next = optional(
            match m.uptime {
                Some(v) => Some(seq![v]),
                None => None,
            },
        );
        lemma_add_add(base, acc, next);
        acc = acc.add(next);
    }
    push_optional_byte(out, m.hops);
    proof {
        let next = optional(
            match m.hops {
                Some(v) => Some(seq![v]),
                None => None,
            },
        );
        lemma_add_add(base, acc, next);
        acc = acc.add(next);
        assert(acc == measurements_bytes(*m));
    }
}

fn push_report_list(out: &mut Vec<u8>, list: &Vec<(NodeIndex, ReputationMeasurements)>)
    ensures
        final(out)@ == old(out)@.add(report_list_bytes(list@, list@.len() as int)),
{
    let mut i: usize = 0;
    proof {
        lemma_add_nothing(out@, Seq::empty());
    }
    while i < list.len()
        invariant
            i <= list.len(),
            out@ == old(out)@.add(report_list_bytes(list@, i as int)),
        decreases list.len() - i,
    {
        let (subject, m) = list[i];
        let ghost acc = report_list_bytes(list@, i as int);
        push_le(out, subject as u64, 4);
        push_measurements(out, &m);
        proof {
            lemma_add_add(old(out)@, acc, le_bytes(subject as nat, 4));
            lemma_add_add(
                old(out)@,
                acc.add(le_bytes(subject as nat, 4)),
                measurements_bytes(m),
            );
        }
        i += 1;
    }
}

fn push_stake_body(
    out: &mut Vec<u8>,
    amount: u128,
    node_public_key: &[u8; 32],
    consensus_key: &Option<[u8; 96]>,
    node_domain: &Option<IpAddress>,
    worker_public_key: &Option<[u8; 32]>,
    worker_domain: &Option<IpAddress>,
    ports: &Option<NodePorts>,
)
    ensures
        final(out)@ == old(out)@.add(
            method_body(
                UpdateMethod::Stake {
                    amount,
                    node_public_key: *node_public_key,
                    consensus_key: *consensus_key,
                    node_domain: *node_domain,
                    worker_public_key: *worker_public_key,
                    worker_domain: *worker_domain,
                    ports: *ports,
                },
            ),
        ),
{
    let ghost base = out@;
    push_u128(out, amount);
    let ghost mut acc = u128_bytes(amount);
    push_array(out, node_public_key);
    proof {
        lemma_add_add(base, acc, node_public_key@);
        acc = acc.add(node_public_key@);
    }
    push_optional_array(out, consensus_key);
    proof {
        let next = optional(
            match *consensus_key {
                Some(k) => Some(k@),
                None => None,
            },
        );
        lemma_add_add(base, acc, next);
        acc = acc.add(next);
    }
    push_optional_ip(out, node_domain);
    proof {
        let next = optional(
            match *node_domain {
                Some(d) => Some(ip_bytes(d)),
                None => None,
            },
        );
        lemma_add_add(base, acc, next);
        acc = acc.add(next);
    }
    push_optional_array(out, worker_public_key);
    proof {
        let next = optional(
            match *worker_public_key {
                Some(k) => Some(k@),
                None => None,
            },
        );
        lemma_add_add(base, acc, next);
        acc = acc.add(next);
    }
    push_optional_ip(out, worker_domain);
    proof {
        let next = optional(
            match *worker_domain {
                Some(d) => Some(ip_bytes(d)),
                None => None,
            },
        );
        lemma_add_add(base, acc, next);
        acc = acc.add(next);
    }
    push_optional_ports(out, ports);
    proof {
        let next = optional(
            match *ports {
                Some(p) => Some(ports_bytes(p)),
                None => None,
            },
        );
        lemma_add_add(base, acc, next);
        acc = acc.add(next);
    }
}

fn push_amount_token_address(out: &mut Vec<u8>, amount: u128, token: Tokens, address: &[u8; 20])
    ensures
        final(out)@ == old(out)@.add(u128_bytes(amount).push(token_byte(token)).add(address@)),
{
    let ghost base = out@;
    push_u128(out, amount);
    push_token(out, token);
    push_array(out, address);
    proof {
        lemma_add_push(base, u128_bytes(amount), token_byte(token));
        lemma_add_add(base, u128_bytes(amount).push(token_byte(token)), address@);
    }
}

fn push_delivery_body(
    out: &mut Vec<u8>,
    commodity: u128,
    service_id: u32,
    proofs: usize,
    metadata: &Option<Vec<u8>>,
)
    ensures
        final(out)@ == old(out)@.add(
            u128_bytes(commodity).add(le_bytes(service_id as nat, 4)).add(
                le_bytes(proofs as nat, 8),
            ).add(
                optional_blob(*metadata),
            ),
        ),
{
    let ghost base = out@;
    push_u128(out, commodity);
    let ghost mut acc = u128_bytes(commodity);
    push_le(out, service_id as u64, 4);
    proof {
        lemma_add_add(base, acc, le_bytes(service_id as nat, 4));
        acc = acc.add(le_bytes(service_id as nat, 4));
    }
    push_le(out, proofs as u64, 8);
    proof {
        lemma_add_add(base, acc, le_bytes(proofs as nat, 8));
        acc = acc.add(le_bytes(proofs as nat, 8));
    }
    push_optional_blob(out, metadata);
    proof {
        lemma_add_add(base, acc, optional_blob(*metadata));
    }
}

fn push_method_body(out: &mut Vec<u8>, method: &UpdateMethod)
    ensures
        final(out)@ == old(out)@.add(method_body(*method)),
{
    let ghost base = out@;
    match method {
        UpdateMethod::Deposit { proof, token, amount } => {
            push_token(out, *token);
            push_u128(out, *amount);
            proof {
                lemma_add_nothing(base, Seq::empty());
                lemma_add_push(base, Seq::empty(), token_byte(*token));
                lemma_add_add(base, seq![token_byte(*token)], u128_bytes(*amount));
            }
        },
        UpdateMethod::Withdraw { amount, token, receiving_address } => {
            push_amount_token_address(out, *amount, *token, receiving_address);
        },
        UpdateMethod::Transfer { amount, token, to } => {
            push_amount_token_address(out, *amount, *token, to);
        },
        UpdateMethod::Stake {
            amount,
            node_public_key,
            consensus_key,
            node_domain,
            worker_public_key,
            worker_domain,
            ports,
        } => {
            push_stake_body(
                out,
                *amount,
                node_public_key,
                consensus_key,
                node_domain,
                worker_public_key,
                worker_domain,
                ports,
            );
        },
        UpdateMethod::StakeLock { node, locked_for } => {
            push_array(out, node);
            push_le(out, *locked_for, 8);
            proof {
                lemma_add_add(base, node@, le_bytes(*locked_for as nat, 8));
            }
        },
        UpdateMethod::Unstake { amount, node } => {
            push_u128(out, *amount);
            push_array(out, node);
            proof {
                lemma_add_add(base, u128_bytes(*amount), node@);
            }
        },
        UpdateMethod::WithdrawUnstaked { node, recipient } => {
            push_array(out, node);
            push_optional_array(out, recipient);
            proof {
                lemma_add_add(
                    base,
                    node@,
                    optional(
                        match *recipient {
                            Some(r) => Some(r@),
                            None => None,
                        },
                    ),
                );
            }
        },
        UpdateMethod::ChangeEpoch { epoch } => {
            push_le(out, *epoch, 8);
        },
        UpdateMethod::SubmitDeliveryAcknowledgmentAggregation {
            commodity,
            service_id,
            proofs,
            metadata,
        } => {
            push_delivery_body(out, *commodity, *service_id, proofs.len(), metadata);
        },
        UpdateMethod::SubmitReputationMeasurements { measurements } => {
            push_le(out, measurements.len() as u64, 8);
            push_report_list(out, measurements);
            proof {
                lemma_add_add(
                    base,
                    le_bytes(measurements@.len(), 8),
                    report_list_bytes(measurements@, measurements@.len() as int),
                );
            }
        },
        UpdateMethod::ChangeProtocolParam { param, value } => {
            push_param(out, *param);
            push_u128(out, *value);
            proof {
                lemma_add_nothing(base, Seq::empty());
                lemma_add_push(base, Seq::empty(), param_byte(*param));
                lemma_add_add(base, seq![param_byte(*param)], u128_bytes(*value));
            }
        },
        UpdateMethod::OptIn {  } => {
            proof {
                lemma_add_nothing(base, Seq::empty());
            }
        },
        UpdateMethod::OptOut {  } => {
            proof {
                lemma_add_nothing(base, Seq::empty());
            }
        },
    }
}

fn method_tag_of(method: &UpdateMethod) -> (tag: u8)
    ensures
        tag == method_tag(*method),
{
    match method {
        UpdateMethod::Deposit { .. } => 0,
        UpdateMethod::Withdraw { .. } => 1,
        UpdateMethod::Transfer { .. } => 2,
        UpdateMethod::Stake { .. } => 3,
        UpdateMethod::StakeLock { .. } => 4,
        UpdateMethod::Unstake { .. } => 5,
        UpdateMethod::WithdrawUnstaked { .. } => 6,
        UpdateMethod::ChangeEpoch { .. } => 7,
        UpdateMethod::SubmitDeliveryAcknowledgmentAggregation { .. } => 8,
        UpdateMethod::SubmitReputationMeasurements { .. } => 9,
        UpdateMethod::ChangeProtocolParam { .. } => 10,
        UpdateMethod::OptIn { .. } => 11,
        UpdateMethod::OptOut { .. } => 12,
    }
}

impl UpdatePayload {
    /// Writes the canonical bytes of the payload.
    pub fn transcript(&self) -> (bytes: Vec<u8>)
        ensures
            bytes@ == payload_transcript(*self),
    {
        let mut bytes: Vec<u8> = Vec::new();
        match &self.sender {
            TransactionSender::NodeMain(k) => push_array(&mut bytes, k),
            TransactionSender::AccountOwner(a) => push_array(&mut bytes, a),
        }
        proof {
            lemma_add_nothing(Seq::empty(), sender_bytes(self.sender));
        }
        push_le(&mut bytes, self.nonce, 8);
        bytes.push(method_tag_of(&self.method));
        push_method_body(&mut bytes, &self.method);
        bytes
    }

    /// Computes the digest of the payload: the BLAKE3 hash of its canonical
    /// bytes. Signatures are made over this digest.
    pub fn to_digest(&self) -> (digest: Digest)
        ensures
            digest@ == blake3_hash(payload_transcript(*self)),
            digest == payload_digest(*self),
    {
        let bytes = self.transcript();
        let digest = blake3(&bytes);
        proof {
            lemma_digest_of(digest);
        }
        digest
    }
}

} // verus!
