use mizer_core::sacn_output::{e131_payload, output_name, SACN_PORT};
use mizer_core::{DestinationError, DestinationQuery, SacnOutput, SocketAddress};

fn localhost(port: u16) -> SocketAddress {
    SocketAddress::V4 { octets: [127, 0, 0, 1], port }
}

#[test]
fn new_output_defaults_to_priority_100() {
    let output = SacnOutput::new(None, None);
    assert_eq!(output.priority, 100);
    assert_eq!(SacnOutput::new(Some(150), None).priority, 150);
    assert_eq!(SacnOutput::default().priority, 100);
    assert!(SacnOutput::default().host.is_none());
}

#[test]
fn no_host_sends_multicast() {
    let output = SacnOutput::new(None, None);
    assert_eq!(output.destination_query(), DestinationQuery::Multicast);
    assert_eq!(output.destination(None, None), Ok(None));
}

#[test]
fn host_without_port_is_looked_up_on_the_sacn_port() {
    let output = SacnOutput::new(None, Some("127.0.0.1".into()));
    assert_eq!(
        output.destination_query(),
        DestinationQuery::Host { host: "127.0.0.1".to_string(), default_port: SACN_PORT }
    );
    assert_eq!(SACN_PORT, 5568);
    assert_eq!(
        output.destination(None, Some(Ok(Some(localhost(SACN_PORT))))),
        Ok(Some(localhost(5568)))
    );
}

#[test]
fn a_host_with_its_own_port_keeps_it() {
    let output = SacnOutput::new(None, Some("127.0.0.1:6001".into()));
    assert_eq!(output.destination(Some(localhost(6001)), None), Ok(Some(localhost(6001))));
}

#[test]
fn unresolvable_host_is_an_error() {
    let output = SacnOutput::new(None, Some("999.999.999.999".into()));
    assert_eq!(
        output.destination(None, Some(Ok(None))),
        Err(DestinationError::Unresolvable { host: "999.999.999.999".to_string() })
    );
    assert_eq!(
        output.destination(None, Some(Err("no such host".to_string()))),
        Err(DestinationError::Lookup {
            host: "999.999.999.999".to_string(),
            message: "no such host".to_string()
        })
    );
}

#[test]
fn payload_is_start_code_then_the_slots() {
    let mut slots = vec![0u8; 512];
    slots[511] = 0xAB;
    let payload = e131_payload(&slots);
    assert_eq!(payload.len(), 513);
    assert_eq!(payload[0], 0);
    assert_eq!(payload[512], 0xAB);
    assert_eq!(&payload[1..], &slots[..]);
}

#[test]
fn output_name_shows_the_source_name() {
    assert_eq!(output_name(Some("mizer")), "sACN (mizer)");
    assert_eq!(output_name(Some("")), "sACN ()");
    assert_eq!(output_name(None), "sACN");
}
