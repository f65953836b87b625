//! Selecting access-point endpoints on port 4070, and the hello envelope
//! round trip on concrete values.
use ap_handshake::handshake::Handshake;
use ap_handshake::http::ApResolveData;

#[test]
fn accesspoint_4070_keeps_only_that_port_in_order() {
    let data = ApResolveData {
        accesspoint: vec![
            String::from("ap.example.com:443"),
            String::from("ap-one.example.com:4070"),
            String::from("ap.example.com:80"),
            String::from("ap-two.example.com:4070"),
        ],
    };
    assert_eq!(
        data.accesspoint_4070(),
        vec![
            String::from("ap-one.example.com:4070"),
            String::from("ap-two.example.com:4070"),
        ]
    );
}

#[test]
fn accesspoint_4070_of_empty_list_is_empty() {
    let data = ApResolveData { accesspoint: vec![] };
    assert!(data.accesspoint_4070().is_empty());
}

#[test]
fn accesspoint_4070_ignores_short_and_near_miss_entries() {
    let data = ApResolveData {
        accesspoint: vec![
            String::from("4070"),
            String::from(":407"),
            String::from("host:40700"),
            String::from(":4070"),
        ],
    };
    assert_eq!(data.accesspoint_4070(), vec![String::from(":4070")]);
}

#[test]
fn hello_envelope_reparses_to_its_payload_length() {
    let (_hs, hello) = Handshake::with_parts(vec![3u8; 95], vec![5u8; 16]);
    let envelope_length =
        u32::from_be_bytes([hello[2], hello[3], hello[4], hello[5]]) as usize;
    assert_eq!(envelope_length, hello.len());
    let payload = &hello[6..];
    assert_eq!(payload.len(), envelope_length - 6);
}
