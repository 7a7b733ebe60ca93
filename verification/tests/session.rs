use mc_client::cursor::ByteCursor;
use mc_client::game::{
    CompressionStatus, ConnectionState, MinecraftConnection, Reaction, ServerAddress,
};
use mc_client::packet::Packet;
use mc_client::registry::Direction;

fn fresh() -> MinecraftConnection {
    MinecraftConnection::new(ServerAddress { ip: 0x05B59741, port: 25565 }, "owow".to_string())
}

fn from_server(packet: Packet, c: &MinecraftConnection) -> Vec<u8> {
    packet.serialize(c).unwrap()
}

#[test]
fn a_new_connection_is_about_to_log_in() {
    let c = fresh();
    assert_eq!(c.state, ConnectionState::Login);
    assert_eq!(c.compression, CompressionStatus::Disabled);
    assert_eq!(c.player_name, "owow");
    assert_eq!(c.server_address, ServerAddress { ip: 0x05B59741, port: 25565 });
}

#[test]
fn login_flow_end_to_end() {
    let mut client = fresh();

    // the client opens with a handshake and its name, both uncompressed
    let opening = client.opening("5.181.151.65".to_string());
    assert_eq!(
        opening,
        vec![
            Packet::ClientHandshake { host_address: "5.181.151.65".to_string(), port: 25565 },
            Packet::ClientJoin { player_name: "owow".to_string() },
        ]
    );
    let mut wire = Vec::new();
    for packet in opening {
        wire.extend(packet.serialize(&client).unwrap());
    }
    let mut sent = ByteCursor::new(wire);
    assert_eq!(
        Packet::deserialize_as(
            &mut sent,
            ConnectionState::Handshake,
            CompressionStatus::Disabled,
            Direction::ServerBound
        ),
        Ok(Packet::ClientHandshake { host_address: "5.181.151.65".to_string(), port: 25565 })
    );
    assert_eq!(
        Packet::deserialize_as(
            &mut sent,
            ConnectionState::Login,
            CompressionStatus::Disabled,
            Direction::ServerBound
        ),
        Ok(Packet::ClientJoin { player_name: "owow".to_string() })
    );
    assert_eq!(sent.remaining_len(), 0);

    // the server sets the threshold, still uncompressed
    let mut server = client.clone();
    let mut wire = ByteCursor::new(from_server(
        Packet::ServerCompressionLevelSet { compression_level: 64 },
        &server,
    ));
    let packet = Packet::deserialize(&mut wire, &client).unwrap();
    assert_eq!(client.receive(&packet), Reaction::CompressionEnabled { threshold: 64 });
    assert_eq!(client.state, ConnectionState::Login);
    assert_eq!(client.compression, CompressionStatus::Enabled(64));
    server.compression = CompressionStatus::Enabled(64);

    // the login succeeds, in a frame with the preamble
    let success = Packet::ServerLoginSuccess {
        uuid: "069a79f4-44e9-4726-a5be-fca90e38aaf5".to_string(),
        name: "owow".to_string(),
    };
    let mut wire = ByteCursor::new(from_server(success.clone(), &server));
    let packet = Packet::deserialize(&mut wire, &client).unwrap();
    assert_eq!(packet, success);
    assert_eq!(client.receive(&packet), Reaction::LoggedIn);
    assert_eq!(client.state, ConnectionState::Play);
    assert_eq!(client.compression, CompressionStatus::Enabled(64));
    server.state = ConnectionState::Play;

    // a keep-alive is echoed with the same magic value
    let mut wire = ByteCursor::new(from_server(
        Packet::ServerKeepAlive { magic: 0x1122334455667788 },
        &server,
    ));
    let packet = Packet::deserialize(&mut wire, &client).unwrap();
    let reply = match client.receive(&packet) {
        Reaction::Reply(reply) => reply,
        other => panic!("no reply: {:?}", other),
    };
    assert_eq!(reply, Packet::ClientKeepAlive { magic: 0x1122334455667788 });
    let echoed = reply.serialize(&client).unwrap();
    assert_eq!(echoed, vec![10, 0, 0x0F, 0x11, 0x22, 0x33, 0x44, 0x55, 0x66, 0x77, 0x88]);
    let mut back = ByteCursor::new(echoed);
    assert_eq!(
        Packet::deserialize_as(
            &mut back,
            ConnectionState::Play,
            client.compression,
            Direction::ServerBound
        ),
        Ok(Packet::ClientKeepAlive { magic: 0x1122334455667788 })
    );
    assert_eq!(client.state, ConnectionState::Play);
}

#[test]
fn a_second_threshold_is_refused_and_the_first_kept() {
    let mut c = fresh();
    assert_eq!(
        c.receive(&Packet::ServerCompressionLevelSet { compression_level: 256 }),
        Reaction::CompressionEnabled { threshold: 256 }
    );
    assert_eq!(
        c.receive(&Packet::ServerCompressionLevelSet { compression_level: 512 }),
        Reaction::NegotiationConflict { kept: 256, requested: 512 }
    );
    assert_eq!(c.compression, CompressionStatus::Enabled(256));
    assert_eq!(
        c.receive(&Packet::ServerCompressionLevelSet { compression_level: 256 }),
        Reaction::NegotiationConflict { kept: 256, requested: 256 }
    );
    assert_eq!(c.compression, CompressionStatus::Enabled(256));
    assert_eq!(c.state, ConnectionState::Login);
}

#[test]
fn a_threshold_outside_login_changes_nothing() {
    for state in [ConnectionState::Handshake, ConnectionState::Status, ConnectionState::Play] {
        let mut c = fresh();
        c.state = state;
        assert_eq!(
            c.receive(&Packet::ServerCompressionLevelSet { compression_level: 256 }),
            Reaction::Deliver
        );
        assert_eq!(c.compression, CompressionStatus::Disabled);
        assert_eq!(c.state, state);
    }
}

#[test]
fn login_success_moves_only_from_login_to_play() {
    let success =
        Packet::ServerLoginSuccess { uuid: "u".to_string(), name: "n".to_string() };
    for state in [ConnectionState::Handshake, ConnectionState::Status, ConnectionState::Play] {
        let mut c = fresh();
        c.state = state;
        assert_eq!(c.receive(&success), Reaction::Deliver);
        assert_eq!(c.state, state);
    }
    let mut c = fresh();
    assert_eq!(c.receive(&success), Reaction::LoggedIn);
    assert_eq!(c.state, ConnectionState::Play);
    assert_eq!(c.receive(&success), Reaction::Deliver);
    assert_eq!(c.state, ConnectionState::Play);
}

#[test]
fn other_packets_are_delivered_and_change_nothing() {
    let packets = [
        Packet::ServerChatPacket { message: "hi".to_string(), position: 0 },
        Packet::ServerDisconnectPacket { reason: "bye".to_string() },
        Packet::ServerWorldTimeUpdate { age: 1, time: 2 },
        Packet::ClientKeepAlive { magic: 3 },
        Packet::ClientJoin { player_name: "x".to_string() },
    ];
    for packet in packets {
        let mut c = fresh();
        let before = c.clone();
        assert_eq!(c.receive(&packet), Reaction::Deliver);
        assert_eq!(c, before);
    }
}

#[test]
fn keep_alive_is_answered_in_every_state() {
    for state in [ConnectionState::Login, ConnectionState::Play] {
        let mut c = fresh();
        c.state = state;
        let before = c.clone();
        assert_eq!(
            c.receive(&Packet::ServerKeepAlive { magic: i64::MIN }),
            Reaction::Reply(Packet::ClientKeepAlive { magic: i64::MIN })
        );
        assert_eq!(c, before);
    }
}
