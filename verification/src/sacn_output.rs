//! The sACN (E1.31) output: its settings, where it sends to, and what it sends.
use vstd::prelude::*;

verus! {

/// The port sACN uses for both multicast and unicast destinations (E1.31).
pub const SACN_PORT: u16 = 5568;

/// The priority an output sends with unless it is given one.
pub const DEFAULT_PRIORITY: u8 = 100;

/// The number of slots of a DMX universe.
pub const UNIVERSE_SLOTS: usize = 512;

/// The settings of an sACN output.
#[derive(Clone, Debug)]
pub struct SacnOutput {
    /// The priority the output's packets carry.
    pub priority: u8,
    /// Optional unicast destination; multicast (per universe) when absent.
    pub host: Option<String>,
}

impl SacnOutput {
    /// An output with the given priority (100 when none is given) and
    /// destination host.
    pub fn new(priority: Option<u8>, host: Option<String>) -> (r: SacnOutput)
        ensures
            r.priority == (match priority {
                Some(p) => p,
                None => DEFAULT_PRIORITY,
            }),
            r.host == host,
    {
        SacnOutput {
            priority: match priority {
                Some(p) => p,
                None => DEFAULT_PRIORITY,
            },
            host,
        }
    }

    /// What the network layer must find out to know where to send.
    pub fn destination_query(&self) -> (r: DestinationQuery)
        ensures
            match self.host {
                None => r is Multicast,
                Some(h) => r matches DestinationQuery::Host { host, default_port } && host@ == h@
                    && default_port == SACN_PORT,
            },
    {
        match &self.host {
            None => DestinationQuery::Multicast,
            Some(host) => DestinationQuery::Host { host: host.clone(), default_port: SACN_PORT },
        }
    }

    /// The unicast destination, or `None` to send multicast. `parsed` is the
    /// host read as a socket address (with its own port); where it is none,
    /// `lookup` is the outcome of resolving the host with the sACN port: the
    /// first address found, or the resolver's error.
    pub fn destination(
        &self,
        parsed: Option<SocketAddress>,
        lookup: Option<Result<Option<SocketAddress>, String>>,
    ) -> (r: Result<Option<SocketAddress>, DestinationError>)
        ensures
            match self.host {
                None => r == Ok::<Option<SocketAddress>, DestinationError>(None),
                Some(h) => match parsed {
                    Some(a) => r == Ok::<Option<SocketAddress>, DestinationError>(Some(a)),
                    None => match lookup {
                        Some(Ok(Some(b))) => r == Ok::<Option<SocketAddress>, DestinationError>(
                            Some(b),
                        ),
                        Some(Err(message)) => r matches Err(DestinationError::Lookup { host, message: m })
                            && host@ == h@ && m@ == message@,
                        _ => r matches Err(DestinationError::Unresolvable { host }) && host@ == h@,
                    },
                },
            },
    {
        match &self.host {
            None => Ok(None),
            Some(host) => match parsed {
                Some(address) => Ok(Some(address)),
                None => match lookup {
                    Some(Ok(Some(address))) => Ok(Some(address)),
                    Some(Err(message)) => Err(DestinationError::Lookup { host: host.clone(), message }),
                    _ => Err(DestinationError::Unresolvable { host: host.clone() }),
                },
            },
        }
    }
}

impl Default for SacnOutput {
    /// An output with the default priority that sends multicast.
    fn default() -> (r: SacnOutput)
        ensures
            r.priority == DEFAULT_PRIORITY,
            r.host is None,
    {
        SacnOutput::new(None, None)
    }
}

/// What must be found out to know where an output sends.
#[derive(Clone, Debug, PartialEq)]
pub enum DestinationQuery {
    /// Nothing: the output sends multicast.
    Multicast,
    /// The address of `host`; a host without a port of its own uses
    /// `default_port`.
    Host { host: String, default_port: u16 },
}

/// A socket address: an IP address and a port.
#[derive(Clone, Copy, Debug, PartialEq, Eq)]
pub enum SocketAddress {
    V4 { octets: [u8; 4], port: u16 },
    V6 { segments: [u16; 8], port: u16, flowinfo: u32, scope_id: u32 },
}

/// Why an output has no destination.
#[derive(Clone, Debug, PartialEq)]
pub enum DestinationError {
    /// Resolving the host found no address.
    Unresolvable { host: String },
    /// Resolving the host failed.
    Lookup { host: String, message: String },
}

/// The name an output shows: `sACN (<source name>)`, or `sACN` where the
/// source cannot be reached (`None`).
pub fn output_name(source_name: Option<&str>) -> (r: String)
    ensures
        match source_name {
            None => r@ == "sACN"@,
            Some(n) => r@ == "sACN ("@ + n@ + ")"@,
        },
{
    match source_name {
        None => {
            let r = "sACN".to_string();
            proof {
                vstd::string::to_string_from_display_ensures_for_str("sACN", r);
            }
            r
        },
        Some(n) => {
            let mut r = "sACN (".to_string();
            proof {
                vstd::string::to_string_from_display_ensures_for_str("sACN (", r);
            }
            r.append(n);
            r.append(")");
            r
        },
    }
}

/// The E1.31 property values of one universe: the DMX start code 0, then the
/// 512 slots.
pub fn e131_payload(slots: &Vec<u8>) -> (payload: Vec<u8>)
    requires
        slots@.len() == UNIVERSE_SLOTS,
    ensures
        payload@ == seq![0u8] + slots@,
{
    let mut payload: Vec<u8> = Vec::new();
    payload.push(0);
    let mut i: usize = 0;
    while i < slots.len()
        invariant
            i <= slots@.len(),
            payload@ == seq![0u8] + slots@.take(i as int),
        decreases slots.len() - i,
    {
        payload.push(slots[i]);
        proof {
            assert(slots@.take(i + 1) =~= slots@.take(i as int).push(slots@[i as int]));
            assert(seq![0u8] + slots@.take(i + 1) =~= (seq![0u8] + slots@.take(i as int)).push(
                slots@[i as int],
            ));
        }
        i = i + 1;
    }
    proof {
        assert(slots@.take(slots@.len() as int) =~= slots@);
    }
    payload
}

} // verus!
