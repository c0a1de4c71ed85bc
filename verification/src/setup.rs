//! Subnet resolution and the handshake responder.
//!
//! The resolver picks the first local IPv4 address that lies on the
//! configured subnet; first-match over the platform's enumeration order
//! is a deliberate don't-care when several interfaces qualify. The
//! responder decodes one datagram strictly as a discovery request and,
//! when it decodes, produces the announcement text to send back to the
//! sender on the setup port.

use vstd::prelude::*;

use crate::config::{ControllerConfig, StripConfig, spec_sum_counts};
use crate::json::{
    append_dec_i64, config_json, dec_digits, encode_config_packet, json_string,
    parse_startup_message, push_char, spec_parse_startup, strip_json, strips_json,
    strips_tail_json,
};
use crate::packets::{ConfigPacket, StripConfigPacket};

verus! {

// ---------------------------------------------------------------------
// Subnet resolution
// ---------------------------------------------------------------------
/// Whether address `a` lies on the subnet: masked by `netmask`, it
/// equals the masked subnet.
pub open spec fn mask_matches(a: [u8; 4], subnet: [u8; 4], netmask: [u8; 4]) -> bool {
    &&& (a[0] & netmask[0]) == (subnet[0] & netmask[0])
    &&& (a[1] & netmask[1]) == (subnet[1] & netmask[1])
    &&& (a[2] & netmask[2]) == (subnet[2] & netmask[2])
    &&& (a[3] & netmask[3]) == (subnet[3] & netmask[3])
}

/// The first address of `addrs` that lies on the subnet, if any.
pub open spec fn spec_first_match(addrs: Seq<[u8; 4]>, subnet: [u8; 4], netmask: [u8; 4]) -> Option<
    [u8; 4],
>
    decreases addrs.len(),
{
    if addrs.len() == 0 {
        None
    } else if mask_matches(addrs[0], subnet, netmask) {
        Some(addrs[0])
    } else {
        spec_first_match(addrs.drop_first(), subnet, netmask)
    }
}

/// Picks the controller's advertisable address out of a list of
/// candidate interface addresses: the first one on the configured
/// subnet, or `None` when no candidate lies on it.
pub fn find_matching_addr(addrs: &Vec<[u8; 4]>, subnet: [u8; 4], netmask: [u8; 4]) -> (r: Option<
    [u8; 4],
>)
    ensures
        r == spec_first_match(addrs@, subnet, netmask),
        r matches Some(a) ==> mask_matches(a, subnet, netmask) && addrs@.contains(a),
        r is None ==> forall|k: int|
            0 <= k < addrs@.len() ==> !mask_matches(addrs@[k], subnet, netmask),
{
    let mut i: usize = 0;
    proof {
        assert(addrs@.skip(0) =~= addrs@);
    }
    while i < addrs.len()
        invariant
            i <= addrs@.len(),
            spec_first_match(addrs@, subnet, netmask) == spec_first_match(
                addrs@.skip(i as int),
                subnet,
                netmask,
            ),
            forall|k: int| 0 <= k < i ==> !mask_matches(addrs@[k], subnet, netmask),
        decreases addrs@.len() - i,
    {
        let a = addrs[i];
        proof {
            assert(addrs@.skip(i as int)[0] == addrs@[i as int]);
            assert(addrs@.skip(i as int).drop_first() =~= addrs@.skip(i + 1));
        }
        if (a[0] & netmask[0]) == (subnet[0] & netmask[0]) && (a[1] & netmask[1]) == (subnet[1]
            & netmask[1]) && (a[2] & netmask[2]) == (subnet[2] & netmask[2]) && (a[3] & netmask[3])
            == (subnet[3] & netmask[3]) {
            return Some(a);
        }
        i = i + 1;
    }
    proof {
        assert(addrs@.skip(addrs@.len() as int) =~= Seq::<[u8; 4]>::empty());
    }
    None
}

/// Relies on `pnet::datalink::interfaces`: enumerates this machine's
/// network interfaces, each carrying the IP networks bound to it. The
/// outcome depends on the machine's live network state, so nothing is
/// promised of it; every IPv4 address bound to any interface comes
/// through as its four octets, in enumeration order, and every other
/// address as `None`.
#[verifier::external_body]
fn local_ipv4_candidates() -> Vec<Option<[u8; 4]>> {
    let mut out: Vec<Option<[u8; 4]>> = Vec::new();
    for ifc in pnet::datalink::interfaces() {
        for net in ifc.ips {
            out.push(match net {
                pnet::ipnetwork::IpNetwork::V4(n) => Some(n.ip().octets()),
                pnet::ipnetwork::IpNetwork::V6(_) => None,
            });
        }
    }
    out
}

/// The IPv4 candidates of an interface enumeration, kept in order.
pub open spec fn spec_present_prefix(cands: Seq<Option<[u8; 4]>>, n: int) -> Seq<[u8; 4]>
    decreases n,
{
    if n <= 0 {
        Seq::empty()
    } else {
        spec_present_prefix(cands, n - 1) + (match cands[n - 1] {
            Some(a) => seq![a],
            None => Seq::empty(),
        })
    }
}

/// Drops the non-IPv4 entries of a candidate list, keeping order.
pub fn collect_ipv4(cands: &Vec<Option<[u8; 4]>>) -> (r: Vec<[u8; 4]>)
    ensures
        r@ == spec_present_prefix(cands@, cands@.len() as int),
{
    let mut out: Vec<[u8; 4]> = Vec::new();
    let mut i: usize = 0;
    while i < cands.len()
        invariant
            i <= cands@.len(),
            out@ == spec_present_prefix(cands@, i as int),
        decreases cands@.len() - i,
    {
        match cands[i] {
            Some(a) => {
                out.push(a);
            },
            None => {},
        }
        proof {
            assert(out@ =~= spec_present_prefix(cands@, i + 1));
        }
        i = i + 1;
    }
    out
}

/// Resolves the controller's advertisable address: the first IPv4
/// address of any local interface that lies on the configured subnet.
/// Which one wins when several qualify is platform-defined.
pub fn find_matching_ip(subnet: [u8; 4], netmask: [u8; 4]) -> (r: Result<[u8; 4], String>)
    ensures
        r matches Ok(a) ==> mask_matches(a, subnet, netmask),
        r matches Err(e) ==> e@ == "No matching IP's found"@,
{
    let cands = local_ipv4_candidates();
    let addrs = collect_ipv4(&cands);
    match find_matching_addr(&addrs, subnet, netmask) {
        Some(a) => Ok(a),
        None => Err(String::from_str("No matching IP's found")),
    }
}

// ---------------------------------------------------------------------
// The announcement
// ---------------------------------------------------------------------
/// The dotted-decimal text of an IPv4 address.
pub open spec fn ipv4_chars(ip: [u8; 4]) -> Seq<char> {
    dec_digits(ip[0] as int) + seq!['.'] + dec_digits(ip[1] as int) + seq!['.'] + dec_digits(
        ip[2] as int,
    ) + seq!['.'] + dec_digits(ip[3] as int)
}

/// Writes an IPv4 address as dotted-decimal text.
pub fn format_ipv4(ip: [u8; 4]) -> (r: String)
    ensures
        r@ == ipv4_chars(ip),
{
    let mut out = String::new();
    append_dec_i64(&mut out, ip[0] as i64);
    push_char(&mut out, '.');
    append_dec_i64(&mut out, ip[1] as i64);
    push_char(&mut out, '.');
    append_dec_i64(&mut out, ip[2] as i64);
    push_char(&mut out, '.');
    append_dec_i64(&mut out, ip[3] as i64);
    proof {
        assert(out@ =~= ipv4_chars(ip));
    }
    out
}

/// The emitted form of one configured strip, as it appears in the
/// announcement.
pub open spec fn strip_chars(s: StripConfig) -> Seq<char> {
    "{\"name\":"@ + json_string(s.name@) + ",\"startAddr\":"@ + dec_digits(s.startAddr as int)
        + ",\"endAddr\":"@ + dec_digits(s.endAddr as int) + ",\"channel\":"@ + dec_digits(
        s.channel as int,
    ) + "}"@
}

/// The emitted forms of configured strips `1..n`, each preceded by a
/// comma.
pub open spec fn strips_tail_chars(ss: Seq<StripConfig>, n: int) -> Seq<char>
    decreases n,
{
    if n <= 1 {
        Seq::empty()
    } else {
        strips_tail_chars(ss, n - 1) + seq![','] + strip_chars(ss[n - 1])
    }
}

/// The emitted form of the configured strip array.
pub open spec fn strips_chars(ss: Seq<StripConfig>) -> Seq<char> {
    if ss.len() == 0 {
        "[]"@
    } else {
        seq!['['] + strip_chars(ss[0]) + strips_tail_chars(ss, ss.len() as int) + seq![']']
    }
}

/// The exact announcement text for configuration `c` advertising
/// address `a`: the controller's name and address, its primary port,
/// the placeholder MAC (the protocol does not yet carry a real one),
/// the strip count, the total pixel address count, and the strip table.
pub open spec fn announcement_chars(c: ControllerConfig, a: [u8; 4]) -> Seq<char> {
    "{\"name\":"@ + json_string(c.name@) + ",\"ip\":"@ + json_string(ipv4_chars(a)) + ",\"port\":"@
        + dec_digits(c.port as int) + ",\"mac\":"@ + json_string("none"@) + ",\"numStrips\":"@
        + dec_digits(c.strips@.len() as int) + ",\"numAddrs\":"@ + dec_digits(
        spec_sum_counts(c.channels@),
    ) + ",\"strips\":"@ + strips_chars(c.strips@) + "}"@
}

/// Builds the announcement packet for configuration `config`
/// advertising address `ip`: every announced quantity comes straight
/// from the configuration, and the MAC is the protocol's placeholder.
pub fn build_announcement(config: &ControllerConfig, ip: [u8; 4]) -> (r: ConfigPacket)
    requires
        config.wf(),
    ensures
        r.wf(),
        r.name@ == config.name@,
        r.ip@ == ipv4_chars(ip),
        r.port == config.port as i64,
        r.mac@ == "none"@,
        r.numStrips == config.strips@.len() as i64,
        r.numAddrs == spec_sum_counts(config.channels@),
        r.strips@.len() == config.strips@.len(),
        forall|i: int|
            0 <= i < config.strips@.len() ==> {
                &&& (#[trigger] r.strips@[i]).name@ == config.strips@[i].name@
                &&& r.strips@[i].startAddr == config.strips@[i].startAddr as i64
                &&& r.strips@[i].endAddr == config.strips@[i].endAddr as i64
                &&& r.strips@[i].channel == config.strips@[i].channel as i64
            },
{
    let mut strips: Vec<StripConfigPacket> = Vec::new();
    let mut i: usize = 0;
    while i < config.strips.len()
        invariant
            config.wf(),
            i <= config.strips@.len(),
            strips@.len() == i,
            forall|k: int|
                0 <= k < i ==> {
                    &&& (#[trigger] strips@[k]).wf()
                    &&& strips@[k].name@ == config.strips@[k].name@
                    &&& strips@[k].startAddr == config.strips@[k].startAddr as i64
                    &&& strips@[k].endAddr == config.strips@[k].endAddr as i64
                    &&& strips@[k].channel == config.strips@[k].channel as i64
                },
        decreases config.strips@.len() - i,
    {
        let s = &config.strips[i];
        strips.push(
            StripConfigPacket {
                name: s.name.clone(),
                startAddr: s.startAddr as i64,
                endAddr: s.endAddr as i64,
                channel: s.channel as i64,
            },
        );
        i = i + 1;
    }
    let num_addrs = config.num_addrs();
    proof {
        crate::config::lemma_sum_counts_prefix_bounds(
            config.channels@,
            config.channels@.len() as int,
        );
    }
    ConfigPacket {
        name: config.name.clone(),
        ip: format_ipv4(ip),
        port: config.port as i64,
        mac: String::from_str("none"),
        numStrips: config.strips.len() as i64,
        numAddrs: num_addrs as i64,
        strips,
    }
}

proof fn lemma_strips_tail_correspond(ps: Seq<StripConfigPacket>, cs: Seq<StripConfig>, n: int)
    requires
        ps.len() == cs.len(),
        n <= ps.len(),
        forall|i: int|
            0 <= i < cs.len() ==> {
                &&& (#[trigger] cs[i]).startAddr <= i64::MAX
                &&& cs[i].endAddr <= i64::MAX
                &&& cs[i].channel <= i64::MAX
            },
        forall|i: int|
            0 <= i < cs.len() ==> {
                &&& (#[trigger] ps[i]).name@ == cs[i].name@
                &&& ps[i].startAddr == cs[i].startAddr as i64
                &&& ps[i].endAddr == cs[i].endAddr as i64
                &&& ps[i].channel == cs[i].channel as i64
            },
    ensures
        strips_tail_json(ps, n) == strips_tail_chars(cs, n),
    decreases n,
{
    if n > 1 {
        lemma_strips_tail_correspond(ps, cs, n - 1);
        assert(strip_json(ps[n - 1]) == strip_chars(cs[n - 1]));
    }
}

/// The announcement built from `config` is emitted as exactly the
/// announcement text for `config`.
proof fn lemma_announcement_text(p: ConfigPacket, c: ControllerConfig, a: [u8; 4])
    requires
        c.wf(),
        p.name@ == c.name@,
        p.ip@ == ipv4_chars(a),
        p.port == c.port as i64,
        p.mac@ == "none"@,
        p.numStrips == c.strips@.len() as i64,
        p.numAddrs == spec_sum_counts(c.channels@),
        p.strips@.len() == c.strips@.len(),
        forall|i: int|
            0 <= i < c.strips@.len() ==> {
                &&& (#[trigger] p.strips@[i]).name@ == c.strips@[i].name@
                &&& p.strips@[i].startAddr == c.strips@[i].startAddr as i64
                &&& p.strips@[i].endAddr == c.strips@[i].endAddr as i64
                &&& p.strips@[i].channel == c.strips@[i].channel as i64
            },
    ensures
        config_json(p) == announcement_chars(c, a),
{
    lemma_strips_tail_correspond(p.strips@, c.strips@, p.strips@.len() as int);
    if p.strips@.len() > 0 {
        assert(strip_json(p.strips@[0]) == strip_chars(c.strips@[0]));
    }
    assert(strips_json(p.strips@) == strips_chars(c.strips@));
}

/// A first match, when there is one, lies on the subnet.
pub proof fn lemma_first_match_matches(addrs: Seq<[u8; 4]>, subnet: [u8; 4], netmask: [u8; 4])
    ensures
        spec_first_match(addrs, subnet, netmask) matches Some(a) ==> mask_matches(
            a,
            subnet,
            netmask,
        ),
    decreases addrs.len(),
{
    if addrs.len() > 0 && !mask_matches(addrs[0], subnet, netmask) {
        lemma_first_match_matches(addrs.drop_first(), subnet, netmask);
    }
}

// ---------------------------------------------------------------------
// The handshake decision
// ---------------------------------------------------------------------
/// Why a handshake cycle produced no reply.
#[derive(Clone, Copy, Debug, PartialEq, Eq, Structural)]
pub enum HandshakeError {
    /// No local interface address lies on the configured subnet; the
    /// controller must not advertise a bogus address, so the cycle is
    /// abandoned and retried on the next liveness timeout.
    ResolutionFailure,
    /// The datagram did not decode as a discovery request; it is
    /// silently dropped and no reply is sent.
    DecodeFailure,
}

/// Handles one datagram received while awaiting a handshake, given the
/// candidate interface addresses: resolves the advertisable address,
/// decodes the datagram strictly as a discovery request, and on
/// success hands back the announcement text and the port the reply
/// must go to — the sender's host on the configured setup port.
pub fn handshake_response(config: &ControllerConfig, addrs: &Vec<[u8; 4]>, request: &str) -> (r:
    Result<(String, u16), HandshakeError>)
    requires
        config.wf(),
    ensures
        (r == Err::<(String, u16), HandshakeError>(HandshakeError::ResolutionFailure))
            <==> spec_first_match(addrs@, config.subnet, config.netmask) is None,
        (r == Err::<(String, u16), HandshakeError>(HandshakeError::DecodeFailure)) <==> (
        spec_first_match(addrs@, config.subnet, config.netmask) is Some && spec_parse_startup(
            request@,
        ) is None),
        r matches Ok((msg, port)) ==> {
            &&& port == config.setup_port
            &&& spec_parse_startup(request@) is Some
            &&& msg@ == announcement_chars(
                *config,
                spec_first_match(addrs@, config.subnet, config.netmask).unwrap(),
            )
        },
{
    match find_matching_addr(addrs, config.subnet, config.netmask) {
        None => Err(HandshakeError::ResolutionFailure),
        Some(a) => {
            match parse_startup_message(request) {
                None => Err(HandshakeError::DecodeFailure),
                Some(_request) => {
                    let packet = build_announcement(config, a);
                    let msg = encode_config_packet(&packet);
                    proof {
                        lemma_announcement_text(packet, *config, a);
                    }
                    Ok((msg, config.setup_port))
                },
            }
        },
    }
}

/// Handles one datagram received while awaiting a handshake, resolving
/// against the machine's live interfaces. Whatever the enumeration
/// returned, a reply is produced exactly for a datagram that decodes as
/// a discovery request and a resolvable address, and it advertises an
/// address on the configured subnet to the sender's setup port.
pub fn respond_to_discovery(config: &ControllerConfig, request: &str) -> (r: Result<
    (String, u16),
    HandshakeError,
>)
    requires
        config.wf(),
    ensures
        r matches Ok((msg, port)) ==> {
            &&& port == config.setup_port
            &&& spec_parse_startup(request@) is Some
            &&& exists|a: [u8; 4]|
                mask_matches(a, config.subnet, config.netmask) && msg@ == announcement_chars(
                    *config,
                    a,
                )
        },
        r == Err::<(String, u16), HandshakeError>(HandshakeError::DecodeFailure)
            ==> spec_parse_startup(request@) is None,
        spec_parse_startup(request@) is None ==> r is Err,
{
    let cands = local_ipv4_candidates();
    let addrs = collect_ipv4(&cands);
    let r = handshake_response(config, &addrs, request);
    proof {
        lemma_first_match_matches(addrs@, config.subnet, config.netmask);
    }
    r
}

} // verus!
