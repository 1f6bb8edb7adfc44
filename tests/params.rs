use quic_core::cid::ConnectionId;
use quic_core::error::{ErrorKind, FrameType};
use quic_core::param::{
    parse_params, ArcParameters, ClientParameters, CommonParameters, ServerParameters,
};

fn cid(b: &[u8]) -> ConnectionId {
    ConnectionId::from_slice(b).unwrap()
}

fn server_bytes(scid: &[u8], odcid: &[u8], retry: Option<&[u8]>, tweak: impl Fn(&mut CommonParameters)) -> Vec<u8> {
    let mut p = ServerParameters::default();
    tweak(&mut p.common);
    p.set_initial_source_connection_id(cid(scid));
    p.set_original_destination_connection_id(cid(odcid));
    if let Some(r) = retry {
        p.set_retry_source_connection_id(cid(r));
    }
    let mut buf = Vec::new();
    p.write(&mut buf);
    buf
}

fn client_registry(peer_scid: &[u8], odcid: &[u8]) -> ArcParameters {
    let mut client = ClientParameters::default();
    client.set_initial_source_connection_id(cid(&[1, 1]));
    let mut reg = ArcParameters::new_client(client, None);
    reg.original_dcid_from_server_need_equal(cid(odcid));
    reg.initial_scid_from_peer_need_equal(cid(peer_scid));
    reg
}

#[test]
fn test_common_parameters() {
    let mut client_params = ClientParameters::default();
    client_params.set_ack_delay_exponent(0x12);

    println!("{:?}", client_params);
}

#[test]
fn client_accepts_matching_cids() {
    let mut reg = client_registry(&[7, 7], &[9, 9, 9]);
    assert!(!reg.has_rcvd_remote_params());
    let bytes = server_bytes(&[7, 7], &[9, 9, 9], None, |c| c.initial_max_data = 1000);
    assert!(reg.recv_remote_params(&bytes).is_ok());
    assert!(reg.has_rcvd_remote_params());
    let remote = reg.remote().unwrap();
    assert_eq!(remote.initial_max_data, 1000);
    assert_eq!(reg.local().unwrap(), CommonParameters::default());
}

#[test]
fn client_rejects_initial_scid_mismatch() {
    let mut reg = client_registry(&[0xaa], &[0xbb]);
    let bytes = server_bytes(&[0xcc], &[0xbb], None, |_| {});
    let err = reg.recv_remote_params(&bytes).unwrap_err();
    assert_eq!(err.kind, ErrorKind::TransportParameter);
    assert_eq!(err.frame_type, FrameType::Crypto);
    assert_eq!(err.reason, "Initial Source Connection ID from server mismatch");
    assert!(reg.local().is_none());
    assert!(reg.remote().is_none());
}

#[test]
fn client_rejects_retry_and_odcid_mismatch() {
    let mut reg = client_registry(&[1], &[2]);
    reg.retry_scid_from_server_need_equal(cid(&[3]));
    let bytes = server_bytes(&[1], &[2], None, |_| {});
    assert_eq!(reg.recv_remote_params(&bytes).unwrap_err().reason, "Retry Source Connection ID mismatch");

    let mut reg = client_registry(&[1], &[2]);
    let bytes = server_bytes(&[1], &[4], None, |_| {});
    assert_eq!(reg.recv_remote_params(&bytes).unwrap_err().reason, "Original Destination Connection ID mismatch");

    let mut reg = client_registry(&[1], &[2]);
    reg.retry_scid_from_server_need_equal(cid(&[3]));
    let bytes = server_bytes(&[1], &[2], Some(&[3]), |_| {});
    assert!(reg.recv_remote_params(&bytes).is_ok());
}

#[test]
fn server_checks_client_initial_scid() {
    let mut reg = ArcParameters::new_server(ServerParameters::default());
    reg.initial_scid_from_peer_need_equal(cid(&[5, 6]));
    reg.initial_scid_from_peer_need_equal(cid(&[8]));
    let mut client = ClientParameters::default();
    client.set_initial_source_connection_id(cid(&[5, 6]));
    let mut bytes = Vec::new();
    client.write(&mut bytes);
    assert!(reg.recv_remote_params(&bytes).is_ok());

    let mut reg = ArcParameters::new_server(ServerParameters::default());
    reg.initial_scid_from_peer_need_equal(cid(&[8]));
    let err = reg.recv_remote_params(&bytes).unwrap_err();
    assert_eq!(err.reason, "Initial Source Connection ID from client mismatch");
}

#[test]
fn server_only_parameter_from_client_is_refused() {
    let bytes = server_bytes(&[1], &[2], None, |_| {});
    let err = parse_params(&bytes, false).unwrap_err();
    assert_eq!(err.kind, ErrorKind::TransportParameter);
    assert!(parse_params(&bytes, true).is_ok());
}

#[test]
fn every_bound_violation_is_a_transport_parameter_error() {
    let tweaks: Vec<(Box<dyn Fn(&mut CommonParameters)>, &str)> = vec![
        (Box::new(|c| c.max_udp_payload_size = 1199), "max_udp_payload_size from peer must be at least 1200"),
        (Box::new(|c| c.ack_delay_exponent = 21), "ack_delay_exponent from peer must be at most 20"),
        (Box::new(|c| c.max_ack_delay = (1 << 14) + 1), "max_ack_delay from peer must be at most 2^14"),
        (Box::new(|c| c.active_connection_id_limit = 1), "active_connection_id_limit from peer must be at least 2"),
        (Box::new(|c| c.initial_max_streams_bidi = 1 << 60), "initial_max_streams_bidi from peer must be at most 2^60 - 1"),
        (Box::new(|c| c.initial_max_streams_uni = 1 << 60), "initial_max_streams_uni from peer must be at most 2^60 - 1"),
    ];
    for (tweak, reason) in tweaks {
        let mut reg = client_registry(&[1], &[2]);
        let bytes = server_bytes(&[1], &[2], None, |c| tweak(c));
        let err = reg.recv_remote_params(&bytes).unwrap_err();
        assert_eq!(err.kind, ErrorKind::TransportParameter);
        assert_eq!(err.reason, reason);
        assert!(reg.local().is_none());
        assert!(reg.remote().is_none());
        assert!(!reg.has_rcvd_remote_params());
    }
    let mut reg = client_registry(&[1], &[2]);
    let bytes = server_bytes(&[1], &[2], None, |c| {
        c.max_udp_payload_size = 1200;
        c.ack_delay_exponent = 20;
        c.max_ack_delay = 1 << 14;
        c.initial_max_streams_bidi = (1 << 60) - 1;
    });
    assert!(reg.recv_remote_params(&bytes).is_ok());
}

#[test]
fn parameters_round_trip_through_their_encoding() {
    let mut p = ServerParameters::default();
    p.common.max_idle_timeout = 30_000;
    p.common.initial_max_data = 1 << 20;
    p.common.disable_active_migration = true;
    p.set_initial_source_connection_id(cid(&[1, 2, 3]));
    p.set_original_destination_connection_id(cid(&[4]));
    p.stateless_reset_token = Some([7u8; 16]);
    let mut buf = Vec::new();
    p.write(&mut buf);
    assert_eq!(&buf[..6], &[0x01, 0x04, 0x80, 0x00, 0x75, 0x30]);
    let q = parse_params(&buf, true).unwrap();
    assert_eq!(q.common, p.common);
    assert!(q.initial_source_connection_id.unwrap().same(&cid(&[1, 2, 3])));
    assert!(q.original_destination_connection_id.unwrap().same(&cid(&[4])));
    assert!(q.retry_source_connection_id.is_none());
    assert_eq!(q.stateless_reset_token, Some([7u8; 16]));
}

#[test]
fn unknown_and_reserved_parameters_are_ignored() {
    let bytes = [0x40, 0x1b, 0x01, 0xff, 0x04, 0x01, 0x05];
    let p = parse_params(&bytes, true).unwrap();
    assert_eq!(p.common.initial_max_data, 5);
}

#[test]
fn truncated_parameter_is_refused() {
    assert_eq!(parse_params(&[0x04, 0x02, 0x05], false).unwrap_err().kind, ErrorKind::TransportParameter);
}

#[test]
fn failed_registry_stays_failed() {
    let mut reg = client_registry(&[1], &[2]);
    let e = quic_core::error::Error::new(ErrorKind::NoViablePath, FrameType::Padding, "gone");
    reg.on_conn_error(&e);
    assert!(reg.local().is_none());
    let bytes = server_bytes(&[1], &[2], None, |_| {});
    assert_eq!(reg.recv_remote_params(&bytes).unwrap_err().kind, ErrorKind::NoViablePath);
    let mut buf = Vec::new();
    reg.load_local_params_into(&mut buf);
    assert!(buf.is_empty());
}

#[test]
fn server_set_is_accepted_by_the_matching_client() {
    let mut srv = ArcParameters::new_server(ServerParameters::default());
    srv.set_initial_scid(cid(&[3, 3]));
    srv.set_original_dcid(cid(&[4]));
    srv.set_retry_scid(cid(&[5]));
    let mut buf = Vec::new();
    srv.load_local_params_into(&mut buf);
    let mut cli = client_registry(&[3, 3], &[4]);
    cli.retry_scid_from_server_need_equal(cid(&[5]));
    let local = cli.local();
    assert!(cli.recv_remote_params(&buf).is_ok());
    assert_eq!(cli.remote(), srv.local());
    assert_eq!(cli.local(), local);
}
