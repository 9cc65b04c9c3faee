use smb::runtime::port::{client_config, ProtocolClientConfig};
use smb::signing::{GuestPolicy, SigningPolicy};

#[test]
fn negotiation_never_opens_with_the_smb1_multi_protocol_frame() {
    for signing in [SigningPolicy::Required, SigningPolicy::WhenRequired] {
        for guest in [GuestPolicy::Deny, GuestPolicy::AllowUnsigned] {
            let config = client_config(signing, guest);
            assert!(
                config.connection.smb2_only_negotiate,
                "signing={signing:?} guest={guest:?}"
            );
            assert_eq!(config.connection.signing_policy, signing);
        }
    }
}

#[test]
fn the_protocol_default_would_send_smb1_which_is_why_the_facade_overrides_it() {
    assert!(
        !ProtocolClientConfig::default()
            .connection
            .smb2_only_negotiate
    );
}
