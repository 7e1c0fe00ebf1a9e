use vstd::prelude::*;

verus! {

/// The transport layer protocols that the nmap service table distinguishes.
#[derive(Clone, Copy, Debug, PartialEq, Eq, Structural)]
pub enum TransportLayerProtocol {
    Unspecified,
    Sctp,
    Tcp,
    Udp,
}

/// The name under which the nmap service table lists a protocol.
pub open spec fn protocol_name(t: TransportLayerProtocol) -> Seq<char> {
    match t {
        TransportLayerProtocol::Unspecified => seq!['n', 'o', 'n', 'e'],
        TransportLayerProtocol::Sctp => seq!['s', 'c', 't', 'p'],
        TransportLayerProtocol::Tcp => seq!['t', 'c', 'p'],
        TransportLayerProtocol::Udp => seq!['u', 'd', 'p'],
    }
}

/// Returns the lower-case name of the protocol.
pub fn get_transport_layer_protocol_name(t: TransportLayerProtocol) -> (name: &'static str)
    ensures
        name@ == protocol_name(t),
{
    match t {
        TransportLayerProtocol::Unspecified => {
            let s = "none";
            proof {
                reveal_strlit("none");
            }
            s
        },
        TransportLayerProtocol::Sctp => {
            let s = "sctp";
            proof {
                reveal_strlit("sctp");
            }
            s
        },
        TransportLayerProtocol::Tcp => {
            let s = "tcp";
            proof {
                reveal_strlit("tcp");
            }
            s
        },
        TransportLayerProtocol::Udp => {
            let s = "udp";
            proof {
                reveal_strlit("udp");
            }
            s
        },
    }
}

/// Distinct protocols have distinct names, so a name identifies its protocol.
pub proof fn lemma_protocol_name_injective(a: TransportLayerProtocol, b: TransportLayerProtocol)
    requires
        protocol_name(a) == protocol_name(b),
    ensures
        a == b,
{
    if a != b {
        assert(protocol_name(a) != protocol_name(b)) by {
            match a {
                TransportLayerProtocol::Unspecified => assert(protocol_name(a)[0] == 'n'),
                TransportLayerProtocol::Sctp => assert(protocol_name(a)[0] == 's'),
                TransportLayerProtocol::Tcp => assert(protocol_name(a)[0] == 't'),
                TransportLayerProtocol::Udp => assert(protocol_name(a)[0] == 'u'),
            }
            match b {
                TransportLayerProtocol::Unspecified => assert(protocol_name(b)[0] == 'n'),
                TransportLayerProtocol::Sctp => assert(protocol_name(b)[0] == 's'),
                TransportLayerProtocol::Tcp => assert(protocol_name(b)[0] == 't'),
                TransportLayerProtocol::Udp => assert(protocol_name(b)[0] == 'u'),
            }
        }
    }
}

} // verus!
