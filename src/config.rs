use vstd::prelude::*;

use crate::codec::{append_bytes, decimal, push_decimal};

verus! {

/// First peer-to-peer port; validator `i` listens on this plus `i`.
pub const BASE_PORT: u64 = 30300;

/// First JSON-RPC port.
pub const BASE_RPC_PORT: u64 = 8540;

/// First websockets port.
pub const BASE_WS_PORT: u64 = 9540;

/// The kind of setup a configuration file is written for.
pub enum ConfigType {
    PosdaoSetup,
    Docker,
    Rpc,
}

/// Where a node keeps its data.
pub enum BasePath {
    /// `parity-data/node<i>`.
    NodeData(u64),
    /// `data`.
    Data,
}

/// Which accounts a node unlocks.
pub enum AccountUnlock {
    /// The two accounts of the PoSDAO test setup, with the password file
    /// `config/password`.
    PosdaoAccounts,
    /// The node's own signer, with the password file `password.txt`.
    Signer,
    /// None.
    NoAccount,
}

/// The parts of a validator's configuration that depend on its index, the
/// setup and the external address.
pub struct NodeSettings {
    /// `./spec/spec.json` for the PoSDAO setup, `spec.json` otherwise.
    pub chain: String,
    pub base_path: BasePath,
    pub network_port: u64,
    /// `parity-data/reserved-peers` for the PoSDAO setup, `reserved-peers` otherwise.
    pub reserved_peers: String,
    /// `extip:<ip>` where an external address is given; `none` otherwise.
    pub external_ip: Option<String>,
    pub rpc_port: u64,
    pub websockets_port: u64,
    pub unlock: AccountUnlock,
    /// Whether the mining section holds the signer, the secret key share and
    /// the validators' addresses; not for the RPC node.
    pub validator_keys: bool,
}

/// The settings of validator `i`.
pub fn node_settings(i: u64, config_type: &ConfigType, external_ip: Option<String>) -> (r: NodeSettings)
    requires
        i as int + BASE_PORT <= i64::MAX,
    ensures
        r.network_port == BASE_PORT + i,
        r.rpc_port == BASE_RPC_PORT + i,
        r.websockets_port == BASE_WS_PORT + i,
        r.chain@ == (if config_type is PosdaoSetup { "./spec/spec.json"@ } else { "spec.json"@ }),
        r.reserved_peers@ == (if config_type is PosdaoSetup {
            "parity-data/reserved-peers"@
        } else {
            "reserved-peers"@
        }),
        r.base_path == (if config_type is PosdaoSetup { BasePath::NodeData(i) } else { BasePath::Data }),
        r.external_ip == external_ip,
        r.unlock == (match config_type {
            ConfigType::PosdaoSetup => AccountUnlock::PosdaoAccounts,
            ConfigType::Docker => AccountUnlock::Signer,
            ConfigType::Rpc => AccountUnlock::NoAccount,
        }),
        r.validator_keys == !(config_type is Rpc),
{
    let posdao = match config_type {
        ConfigType::PosdaoSetup => true,
        _ => false,
    };
    let chain = if posdao { "./spec/spec.json".to_owned() } else { "spec.json".to_owned() };
    let reserved_peers = if posdao {
        "parity-data/reserved-peers".to_owned()
    } else {
        "reserved-peers".to_owned()
    };
    let base_path = if posdao { BasePath::NodeData(i) } else { BasePath::Data };
    let unlock = match config_type {
        ConfigType::PosdaoSetup => AccountUnlock::PosdaoAccounts,
        ConfigType::Docker => AccountUnlock::Signer,
        ConfigType::Rpc => AccountUnlock::NoAccount,
    };
    let validator_keys = match config_type {
        ConfigType::Rpc => false,
        _ => true,
    };
    NodeSettings {
        chain,
        base_path,
        network_port: BASE_PORT + i,
        reserved_peers,
        external_ip,
        rpc_port: BASE_RPC_PORT + i,
        websockets_port: BASE_WS_PORT + i,
        unlock,
        validator_keys,
    }
}

/// The lower-case hexadecimal digit of `n < 16`, in ASCII.
pub open spec fn hex_digit(n: nat) -> u8 {
    if n < 10 {
        (48 + n) as u8
    } else {
        (87 + n) as u8
    }
}

/// Two lower-case hexadecimal digits per byte, most significant first.
pub open spec fn hex(b: Seq<u8>) -> Seq<u8>
    decreases b.len(),
{
    if b.len() == 0 {
        Seq::empty()
    } else {
        hex(b.drop_last()) + seq![hex_digit((b.last() / 16) as nat), hex_digit((b.last() % 16) as nat)]
    }
}

/// The enode URI of validator `idx`: `enode://<hex public key>@<ip>:<port>`.
pub open spec fn enode_uri_spec(public: Seq<u8>, ip: Seq<u8>, idx: u64) -> Seq<u8> {
    "enode://"@.map_values(|c: char| c as u8) + hex(public) + seq![64u8] + ip + seq![58u8] + decimal(
        (BASE_PORT + idx) as nat,
    )
}

fn push_hex_digit(out: &mut Vec<u8>, n: u8)
    requires
        n < 16,
    ensures
        final(out)@ == old(out)@.push(hex_digit(n as nat)),
{
    if n < 10 {
        out.push(48 + n);
    } else {
        out.push(87 + n);
    }
}

/// The enode URI of validator `idx`, from its 64-byte public key and its IP
/// address in ASCII.
pub fn enode_uri(public: &Vec<u8>, ip: &Vec<u8>, idx: u64) -> (r: Vec<u8>)
    requires
        idx as int + BASE_PORT <= u64::MAX,
    ensures
        r@ == enode_uri_spec(public@, ip@, idx),
{
    let mut out: Vec<u8> = vec![101u8, 110, 111, 100, 101, 58, 47, 47];
    proof {
        reveal_strlit("enode://");
        assert(out@ =~= "enode://"@.map_values(|c: char| c as u8));
    }
    let ghost start = out@;
    let mut i: usize = 0;
    while i < public.len()
        invariant
            i <= public@.len(),
            out@ == start + hex(public@.take(i as int)),
        decreases public@.len() - i,
    {
        let b = public[i];
        let ghost prev = out@;
        push_hex_digit(&mut out, b / 16);
        push_hex_digit(&mut out, b % 16);
        i = i + 1;
        proof {
            assert(public@.take(i as int).drop_last() =~= public@.take(i - 1));
            assert(out@ =~= start + hex(public@.take(i as int)));
        }
    }
    proof {
        assert(public@.take(i as int) =~= public@);
    }
    out.push(64u8);
    append_bytes(&mut out, ip);
    out.push(58u8);
    push_decimal(&mut out, BASE_PORT + idx);
    assert(out@ =~= enode_uri_spec(public@, ip@, idx));
    out
}

} // verus!
