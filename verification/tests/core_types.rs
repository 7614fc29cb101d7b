use group_call::device::{DemuxId, RemoteDeviceState, RemoteDevices};
use group_call::frame;
use group_call::polling::{self, RemoteDevicesRequestState};
use group_call::rates::{compute_send_rates, DataRate, SendRates};
use group_call::ring_id::RingId;
use group_call::srtp::{DheState, SrtpCryptoSuite, SrtpKey, SrtpKeys};
use hkdf::Hkdf;
use sha2::Sha256;
use std::collections::HashSet;
use x25519_dalek::{EphemeralSecret, PublicKey};

fn time(timestamp: u64) -> u64 {
    timestamp * 1000
}

fn remote_device_state(id: u32, spoken_at: Option<u64>) -> RemoteDeviceState {
    let mut remote_device_state = RemoteDeviceState::new(id, id.to_be_bytes().to_vec(), time(1));
    remote_device_state.speaker_time = spoken_at;
    remote_device_state
}

#[test]
fn latest_speaker_of_empty_devices() {
    let remote_devices = RemoteDevices::default();
    assert_eq!(None, remote_devices.latest_speaker_demux_id());
}

#[test]
fn latest_speaker_of_zero_speaking_devices() {
    let device_1 = remote_device_state(1, None);
    let device_2 = remote_device_state(2, None);
    let device_3 = remote_device_state(3, None);
    let remote_devices = RemoteDevices::from_iter(vec![device_1, device_2, device_3]);
    assert_eq!(None, remote_devices.latest_speaker_demux_id());
}

#[test]
fn latest_speaker_of_multiple_speaking_devices() {
    let device_1 = remote_device_state(1, Some(time(100)));
    let device_2 = remote_device_state(2, Some(time(101)));
    let device_3 = remote_device_state(3, None);
    let remote_devices = RemoteDevices::from_iter(vec![device_1, device_2, device_3]);
    assert_eq!(Some(2), remote_devices.latest_speaker_demux_id());
}

#[test]
fn find_by_demux_id_when_key_is_not_found() {
    let device_1 = remote_device_state(1, None);
    let device_2 = remote_device_state(2, None);
    let device_3 = remote_device_state(3, None);
    let absent_id = 4;
    let remote_devices = RemoteDevices::from_iter(vec![device_1, device_2, device_3]);
    let device_state = remote_devices.find_by_demux_id(absent_id);
    assert_eq!(None, device_state);
}

#[test]
fn find_by_demux_id() {
    let device_1 = remote_device_state(1, None);
    let device_2 = remote_device_state(2, None);
    let device_3 = remote_device_state(3, None);
    let remote_devices = RemoteDevices::from_iter(vec![device_1, device_2.clone(), device_3]);
    assert_eq!(
        Some(&device_2),
        remote_devices.find_by_demux_id(device_2.demux_id)
    );
}

#[test]
fn find_by_demux_id_mut_when_key_is_not_found() {
    let device_1 = remote_device_state(1, None);
    let device_2 = remote_device_state(2, None);
    let device_3 = remote_device_state(3, None);
    let absent_id = 4;
    let mut remote_devices = RemoteDevices::from_iter(vec![device_1, device_2, device_3]);
    let device_state = remote_devices.find_by_demux_id_mut(absent_id);
    assert_eq!(None, device_state);
}

#[test]
fn find_by_demux_id_mut_and_edit_is_persisted() {
    let device_1 = remote_device_state(1, None);
    let device_2 = remote_device_state(2, None);
    let device_3 = remote_device_state(3, None);
    let device_2_demux_id = device_2.demux_id;
    let mut remote_devices = RemoteDevices::from_iter(vec![device_1, device_2, device_3]);
    let device_state = remote_devices
        .find_by_demux_id_mut(device_2_demux_id)
        .unwrap();
    device_state.speaker_time = Some(time(300));
    let device_state = remote_devices
        .find_by_demux_id_mut(device_2_demux_id)
        .unwrap();
    assert_eq!(Some(time(300)), device_state.speaker_time);
}

#[test]
fn demux_id_set() {
    let device_1 = remote_device_state(1, None);
    let device_2 = remote_device_state(2, None);
    let device_3 = remote_device_state(3, None);
    let remote_devices = RemoteDevices::from_iter(vec![device_1, device_2, device_3]);
    assert_eq!(
        vec![1, 2, 3].into_iter().collect::<HashSet<DemuxId>>(),
        remote_devices.demux_id_set()
    );
}

#[test]
fn srtp_keys_from_master_key_material() {
    assert_eq!(
        SrtpKeys {
            client: SrtpKey {
                suite: SrtpCryptoSuite::AeadAes128Gcm,
                key: (1..=16).collect(),
                salt: (17..=28).collect(),
            },
            server: SrtpKey {
                suite: SrtpCryptoSuite::AeadAes128Gcm,
                key: (29..=44).collect(),
                salt: (45..=56).collect(),
            }
        },
        SrtpKeys::from_master_key_material(
            &((1..=56).collect::<Vec<u8>>().try_into().unwrap())
        )
    )
}

#[test]
fn dhe_state() {
    struct NotCryptoRng<T: rand::RngCore>(T);

    impl<T: rand::RngCore> rand::RngCore for NotCryptoRng<T> {
        fn next_u32(&mut self) -> u32 {
            self.0.next_u32()
        }

        fn next_u64(&mut self) -> u64 {
            self.0.next_u64()
        }

        fn fill_bytes(&mut self, dest: &mut [u8]) {
            self.0.fill_bytes(dest)
        }

        fn try_fill_bytes(&mut self, dest: &mut [u8]) -> std::result::Result<(), rand::Error> {
            self.0.try_fill_bytes(dest)
        }
    }

    impl<T: rand::RngCore> rand::CryptoRng for NotCryptoRng<T> {}

    let mut rand = NotCryptoRng(rand::rngs::mock::StepRng::new(1, 1));
    let client_secret = EphemeralSecret::random_from_rng(&mut rand);
    let server_secret = EphemeralSecret::random_from_rng(&mut rand);
    let client_pub_key = PublicKey::from(&client_secret);
    let server_pub_key = PublicKey::from(&server_secret);
    let server_cert = &b"server_cert"[..];

    let mut state = DheState::default();
    assert!(matches!(state, DheState::NotYetStarted));
    state.negotiate_in_place(&server_pub_key, server_cert);
    assert!(matches!(state, DheState::NotYetStarted));

    state = DheState::start(client_secret);
    assert!(matches!(state, DheState::WaitingForServerPublicKey { .. }));
    state.negotiate_in_place(&server_pub_key, server_cert);
    assert!(matches!(state, DheState::Negotiated { .. }));
    if let DheState::Negotiated { srtp_keys } = state {
        let server_master_key_material = {
            let shared_secret = server_secret.diffie_hellman(&client_pub_key);
            let mut master_key_material = [0u8; 56];
            Hkdf::<Sha256>::new(Some(&[0u8; 32]), shared_secret.as_bytes())
                .expand_multi_info(
                    &[
                        b"Signal_Group_Call_20211105_SignallingDH_SRTPKey_KDF",
                        server_cert,
                    ],
                    &mut master_key_material,
                )
                .unwrap();
            master_key_material
        };
        let expected_srtp_keys = SrtpKeys::from_master_key_material(&server_master_key_material);
        assert_eq!(expected_srtp_keys, srtp_keys);
    };
}

#[test]
fn ring_id_from_hex_era_is_deterministic_and_exact() {
    let a = RingId::from_era_id("1122334455667788");
    let b = RingId::from_era_id("1122334455667788");
    assert_eq!(a, b);
    assert_eq!(i64::from(a), 0x1122334455667788_i64);
}

#[test]
fn ring_id_zero_era_is_remapped_to_minus_one() {
    assert_eq!(i64::from(RingId::from_era_id("0000000000000000")), -1);
}

#[test]
fn ring_id_high_bit_era_wraps_to_negative() {
    assert_eq!(
        i64::from(RingId::from_era_id("ffffffffffffffff")),
        -1_i64
    );
    assert_eq!(
        i64::from(RingId::from_era_id("8000000000000000")),
        i64::MIN
    );
}

#[test]
fn ring_id_distinct_hex_eras_differ() {
    assert_ne!(
        RingId::from_era_id("1122334455667788"),
        RingId::from_era_id("1122334455667789")
    );
}

#[test]
fn ring_id_non_hex_era_is_deterministic_and_matches_digest() {
    let a = RingId::from_era_id("mesozoic");
    let b = RingId::from_era_id("mesozoic");
    assert_eq!(a, b);
    // The sad path takes the first 8 bytes of the SHA-256 digest,
    // little-endian, as a signed value.
    let digest = <Sha256 as sha2::Digest>::digest("mesozoic".as_bytes());
    let expected = i64::from_le_bytes(digest[..8].try_into().unwrap());
    assert_eq!(i64::from(a), expected);
}

#[test]
fn send_rates_table() {
    let none = SendRates {
        min: None,
        start: None,
        max: Some(DataRate::from_kbps(1)),
    };
    assert_eq!(compute_send_rates(0, false), none);
    assert_eq!(compute_send_rates(0, true), none);
    assert_eq!(
        compute_send_rates(1, false).max,
        Some(DataRate::from_kbps(1000))
    );
    assert_eq!(
        compute_send_rates(7, false).max,
        Some(DataRate::from_kbps(1000))
    );
    assert_eq!(
        compute_send_rates(8, false).max,
        Some(DataRate::from_kbps(671))
    );
    let share = compute_send_rates(3, true);
    assert_eq!(share.min, Some(DataRate::from_kbps(2000)));
    assert_eq!(share.start, Some(DataRate::from_kbps(2000)));
    assert_eq!(share.max, Some(DataRate::from_kbps(5000)));
}

#[test]
fn frame_layout_round_trip() {
    let plaintext = b"Fake Audio";
    let header_len = frame::unencrypted_media_header_len(true);
    assert_eq!(header_len, 1);
    let mac = [7u8; 16];
    let frame = frame::assemble_encrypted_frame(
        &plaintext[..header_len],
        &plaintext[header_len..],
        3,
        12345,
        &mac,
    )
    .unwrap();
    assert_eq!(frame.len(), plaintext.len() + 21);
    assert_eq!(&frame[..header_len], &plaintext[..header_len]);
    let parts = frame::parse_encrypted_frame(header_len, &frame).unwrap();
    assert_eq!(parts.unencrypted_header, plaintext[..header_len].to_vec());
    assert_eq!(parts.encrypted_payload, plaintext[header_len..].to_vec());
    assert_eq!(parts.ratchet_counter, 3);
    assert_eq!(parts.frame_counter, 12345);
    assert_eq!(parts.mac, mac.to_vec());
}

#[test]
fn frame_shorter_than_footer_fails_to_parse() {
    for len in 0..21 {
        let short = vec![0u8; len];
        assert_eq!(
            frame::parse_encrypted_frame(0, &short),
            Err(frame::FrameError::BufferTooSmall)
        );
    }
}

#[test]
fn frame_counter_too_big_fails_to_assemble() {
    let mac = [0u8; 16];
    assert_eq!(
        frame::assemble_encrypted_frame(b"h", b"payload", 0, u64::from(u32::MAX) + 1, &mac),
        Err(frame::FrameError::FrameCounterTooBig)
    );
}

#[test]
fn video_frame_sizes_add_and_remove_the_footer() {
    assert_eq!(frame::get_ciphertext_buffer_size(10), 31);
    assert_eq!(frame::get_plaintext_buffer_size(31), 10);
    assert_eq!(frame::get_plaintext_buffer_size(20), 0);
}

#[test]
fn polling_dedup_rules() {
    assert!(polling::should_request_now(
        &RemoteDevicesRequestState::NeverRequested,
        0,
        10_000
    ));
    assert!(!polling::should_request_now(
        &RemoteDevicesRequestState::WaitingForMembershipProof,
        1_000_000,
        0
    ));
    let requested = RemoteDevicesRequestState::Requested {
        should_request_again: false,
        at: 1_000,
    };
    assert!(!polling::should_request_now(&requested, 6_000, 10_000));
    assert!(polling::should_request_now(&requested, 6_001, 10_000));
    let updated = RemoteDevicesRequestState::Updated { at: 1_000 };
    assert!(!polling::should_request_now(&updated, 10_999, 10_000));
    assert!(polling::should_request_now(&updated, 11_000, 10_000));
    let failed = RemoteDevicesRequestState::Failed { at: 1_000 };
    assert!(!polling::should_request_now(&failed, 6_000, 10_000));
    assert!(polling::should_request_now(&failed, 6_001, 10_000));
}

#[test]
fn ring_id_era_with_leading_sign_takes_the_digest_path() {
    // Anything but exactly 16 hexadecimal digits hashes, a signed-looking
    // 16-character string included.
    let era = "+122334455667788";
    let id = RingId::from_era_id(era);
    let digest = <Sha256 as sha2::Digest>::digest(era.as_bytes());
    let expected = i64::from_le_bytes(digest[..8].try_into().unwrap());
    assert_eq!(i64::from(id), expected);
}
