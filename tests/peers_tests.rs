use playout_engine::peers::{fields_of, listen_port_of, parse_u16, pieces_of, udp_peer_count};

#[test]
fn fields_and_pieces() {
    assert_eq!(fields_of("  a\tb  c \r"), vec!["a", "b", "c"]);
    assert!(fields_of("   ").is_empty());
    assert_eq!(pieces_of("a\n\nb", '\n'), vec!["a", "", "b"]);
    assert_eq!(pieces_of("", '\n'), vec![""]);
}

#[test]
fn listener_ports() {
    assert_eq!(listen_port_of("udp://@:1234"), Some(1234));
    assert_eq!(listen_port_of("udp://0.0.0.0:7000"), Some(7000));
    assert_eq!(listen_port_of("udp://@:1234?listen=1"), None);
    assert_eq!(listen_port_of("udp://239.1.1.1:5000"), None);
    assert_eq!(listen_port_of("srt://@:1234"), None);
    assert_eq!(parse_u16("65535"), Some(65535));
    assert_eq!(parse_u16("65536"), None);
    assert_eq!(parse_u16("-0"), None);
    for s in ["0", "+80", "-1", "70000", "12x", ""] {
        assert_eq!(parse_u16(s), s.parse::<u16>().ok());
    }
}

#[test]
fn distinct_peers_on_the_port() {
    let table = "State  Recv-Q Send-Q Local Address:Port Peer Address:Port\n\
                 ESTAB 0 0 10.0.0.2:1234 10.0.0.9:50000\n\
                 ESTAB 0 0 10.0.0.2:1234 10.0.0.9:50001\n\
                 ESTAB 0 0 10.0.0.2:1234 10.0.0.7:40000\n\
                 UNCONN 0 0 0.0.0.0:1234 0.0.0.0:*\n\
                 UNCONN 0 0 [::]:1234 *:*\n\
                 ESTAB 0 0 10.0.0.2:4321 10.0.0.5:1\n";
    assert_eq!(udp_peer_count(table, 1234), 2);
    assert_eq!(udp_peer_count(table, 4321), 1);
    assert_eq!(udp_peer_count(table, 9999), 0);
    assert_eq!(udp_peer_count("", 1234), 0);
    assert_eq!(udp_peer_count("ESTAB 0 0 10.0.0.2:1234 10.0.0.9:50000", 1234), 0);
}
