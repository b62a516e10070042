use shikataganai::networking::{
    client_connection_config, server_connection_config, ChannelConfig, ClientChannel,
    ReliableChannelConfig, ServerChannel, UnreliableChannelConfig, PROTOCOL_ID,
    RELIABLE_CHANNEL_MAX_LENGTH,
};

fn game_event_channel() -> ChannelConfig {
    ChannelConfig::Reliable(ReliableChannelConfig {
        channel_id: 0,
        resend_time_millis: 0,
        max_message_size: Some(RELIABLE_CHANNEL_MAX_LENGTH),
        packet_budget: Some(2 * RELIABLE_CHANNEL_MAX_LENGTH),
    })
}

fn game_frame_channel() -> ChannelConfig {
    ChannelConfig::Unreliable(UnreliableChannelConfig {
        channel_id: 1,
        message_send_queue_size: 2048,
        message_receive_queue_size: 2048,
    })
}

fn client_command_channel() -> ChannelConfig {
    ChannelConfig::Reliable(ReliableChannelConfig {
        channel_id: 0,
        resend_time_millis: 0,
        max_message_size: None,
        packet_budget: None,
    })
}

#[test]
fn protocol_constants_hold() {
    assert_eq!(PROTOCOL_ID, 42);
    assert_eq!(RELIABLE_CHANNEL_MAX_LENGTH, 10240);
}

#[test]
fn channel_ids_are_fixed() {
    assert_eq!(ServerChannel::GameEvent.id(), 0);
    assert_eq!(ServerChannel::GameFrame.id(), 1);
    assert_eq!(ClientChannel::ClientCommand.id(), 0);
}

#[test]
fn server_channels_are_event_then_frame() {
    let channels = ServerChannel::channels_config();
    assert_eq!(channels, vec![game_event_channel(), game_frame_channel()]);
}

#[test]
fn client_channels_are_one_command_channel() {
    let channels = ClientChannel::channels_config();
    assert_eq!(channels, vec![client_command_channel()]);
}

#[test]
fn connection_configs_mirror_each_other() {
    let server = server_connection_config();
    let client = client_connection_config();
    assert_eq!(server.send_channels_config, client.receive_channels_config);
    assert_eq!(server.receive_channels_config, client.send_channels_config);
    assert_eq!(server.send_channels_config, vec![game_event_channel(), game_frame_channel()]);
    assert_eq!(server.receive_channels_config, vec![client_command_channel()]);
}
