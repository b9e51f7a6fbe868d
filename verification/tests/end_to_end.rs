use farcaster::{CannonLauncher, FCPayload, ReadStep, StreamEvent};

const KEY: [u8; 32] = [
    0x00, 0x01, 0x02, 0x03, 0x04, 0x05, 0x06, 0x07, 0x08, 0x09, 0x0a, 0x0b, 0x0c, 0x0d, 0x0e, 0x0f,
    0x10, 0x11, 0x12, 0x13, 0x14, 0x15, 0x16, 0x17, 0x18, 0x19, 0x1a, 0x1b, 0x1c, 0x1d, 0x1e, 0x1f,
];

const NONCE: [u8; 12] = [0xa0, 0xa1, 0xa2, 0xa3, 0xa4, 0xa5, 0xa6, 0xa7, 0xa8, 0xa9, 0xaa, 0xab];

#[test]
fn login_command_travels_encrypted_and_comes_out_exact() {
    let command = bincode::serialize("login:alice").unwrap();
    assert_eq!(command.len(), 8 + 11);

    let mut envelope = FCPayload::new(1, command.clone(), vec![]);
    assert_eq!(envelope.encrypt_payload(&KEY, &NONCE), Ok(()));
    assert_ne!(envelope.decode_raw_payload(), &command[..]);

    let mut client = CannonLauncher::new();
    let wire = client.set_payload(envelope).send().unwrap();
    assert_eq!(wire.len(), 5 + command.len() + 16);
    assert_eq!(wire[0], 1);
    assert_eq!(&wire[1..3], &[0u8, 35][..]);
    assert_eq!(&wire[wire.len() - 2..], &[0u8, 0][..]);

    let mut server = CannonLauncher::new();
    let mut at: usize = 0;
    let mut step = server.read_message(StreamEvent::Data(Vec::new()));
    let received = loop {
        match step {
            ReadStep::Want(n) => {
                let end = usize::min(wire.len(), at + n);
                step = server.read_message(StreamEvent::Data(wire[at..end].to_vec()));
                at = end;
            }
            ReadStep::Message(envelope) => break envelope,
            ReadStep::Failed(e) => panic!("receive failed: {:?}", e),
        }
    };
    assert_eq!(at, wire.len());
    assert_eq!(received.descriptor, 1);
    assert!(received.decode_metadata().is_empty());

    let recovered = received.decode_encrypted_payload(&KEY, &NONCE).unwrap();
    assert_eq!(recovered, command);
    let text: String = bincode::deserialize(&recovered).unwrap();
    assert_eq!(text, "login:alice");
}

#[test]
fn plain_payload_travels_and_decodes() {
    let command = bincode::serialize(&(42u32, "fire".to_string())).unwrap();
    let mut envelope = FCPayload::new(2, Vec::new(), Vec::new());
    envelope.insert_raw_payload(command).insert_metadata(bincode::serialize(&7u16).unwrap());

    let mut client = CannonLauncher::new();
    let wire = client.set_payload(envelope.clone()).send().unwrap();

    let mut server = CannonLauncher::new();
    match server.read_message(StreamEvent::Data(wire)) {
        ReadStep::Message(received) => {
            assert_eq!(received, envelope);
            let back: (u32, String) = bincode::deserialize(received.decode_raw_payload()).unwrap();
            assert_eq!(back, (42, "fire".to_string()));
            let meta: u16 = bincode::deserialize(received.decode_metadata()).unwrap();
            assert_eq!(meta, 7);
        }
        other => panic!("{:?}", other),
    }
}

#[test]
fn an_altered_frame_is_received_but_not_decrypted() {
    let mut envelope = FCPayload::new(1, bincode::serialize("login:alice").unwrap(), vec![]);
    envelope.encrypt_payload(&KEY, &NONCE).unwrap();
    let mut client = CannonLauncher::new();
    let mut wire = client.set_payload(envelope).send().unwrap();
    wire[10] ^= 0x01;

    let mut server = CannonLauncher::new();
    match server.read_message(StreamEvent::Data(wire)) {
        ReadStep::Message(received) => {
            assert_eq!(
                received.decode_encrypted_payload(&KEY, &NONCE),
                Err(farcaster::CipherError::AuthenticationFailed)
            );
        }
        other => panic!("{:?}", other),
    }
}
