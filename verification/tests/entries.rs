use voyager::database::entities::{DescriptionModel, FaviconModel, ServerModel};
use voyager::util::types::{
    Chat, Description, Entry, Favicon, OnlineStatus, OntosAddress, OntosPlayer, PingResponse,
    SamplePlayer, ScanError, Server, ServerAddress,
};

fn chat(text: &str, color: Option<&str>) -> Chat {
    Chat {
        text: text.to_string(),
        bold: true,
        italic: false,
        underlined: true,
        strikethrough: false,
        obfuscated: true,
        color: color.map(|c| c.to_string()),
    }
}

fn packet() -> PingResponse {
    PingResponse {
        version: "Paper 1.20.1".to_string(),
        protocol: 763,
        max_players: 120,
        online_players: 17,
        sample: Some(vec![
            SamplePlayer {
                name: "Notch".to_string(),
                id: "069a79f4-44e9-4726-a5be-fca90e38aaf5".to_string(),
            },
            SamplePlayer {
                name: "jeb_".to_string(),
                id: "853c80ef3c3749fdaa49938b674adae6".to_string(),
            },
        ]),
        description: chat("A Minecraft Server", Some("gold")),
        favicon: Some(b"hello world~".to_vec()),
        forge: true,
    }
}

fn addr() -> ServerAddress {
    ServerAddress { host: "mc.example.org".to_string(), port: 25570 }
}

#[test]
fn status_names_are_stable() {
    assert_eq!(OnlineStatus::Online.to_string_but_consistent(), "Online");
    assert_eq!(OnlineStatus::Offline.to_string_but_consistent(), "Offline");
    assert_eq!(OnlineStatus::from_stored(&"Online".to_string()), OnlineStatus::Online);
    assert_eq!(OnlineStatus::from_stored(&"Offline".to_string()), OnlineStatus::Offline);
    assert_eq!(OnlineStatus::from_stored(&"online".to_string()), OnlineStatus::Offline);
    assert_eq!(OnlineStatus::from_stored(&"".to_string()), OnlineStatus::Offline);
}

#[test]
fn an_entry_reads_the_answer_field_by_field() {
    let entry = Entry::read_at(packet(), addr(), 1_700_000_000_000_000);
    assert_eq!(entry.server.id, 0);
    assert_eq!(entry.server.ip, "mc.example.org");
    assert_eq!(entry.server.port, 25570);
    assert_eq!(entry.server.version, "Paper 1.20.1");
    assert_eq!(entry.server.protocol, 763);
    assert_eq!(entry.server.max_players, 120);
    assert_eq!(entry.server.online_players, 17);
    assert_eq!(entry.server.auth, OnlineStatus::Online);
    assert_eq!(entry.server.created_at, 1_700_000_000_000_000);
    assert_eq!(entry.server.updated_at, 1_700_000_000_000_000);
    assert!(entry.server.forge);
    assert_eq!(entry.description.id, 0);
    assert_eq!(entry.description.server_id, 0);
    assert_eq!(entry.description.text, "A Minecraft Server");
    assert!(entry.description.bold);
    assert!(!entry.description.italic);
    assert!(entry.description.underline);
    assert!(!entry.description.strikethrough);
    assert!(entry.description.obfuscated);
    assert_eq!(entry.description.colour, "gold");
    assert_eq!(entry.favicon.id, 0);
    assert_eq!(entry.favicon.server_id, 0);
}

#[test]
fn sampled_players_are_read_by_the_value_of_their_uuid() {
    let entry = Entry::read_at(packet(), addr(), 42);
    let players = entry.server.sample_players.unwrap();
    assert_eq!(players.len(), 2);
    assert_eq!(players[0].name, "Notch");
    assert_eq!(players[0].uuid, 0x069a79f444e94726a5befca90e38aaf5);
    assert_eq!(players[0].last_seen, 42);
    assert_eq!(players[0].server_id, 0);
    assert_eq!(players[1].name, "jeb_");
    assert_eq!(players[1].uuid, 0x853c80ef3c3749fdaa49938b674adae6);
}

#[test]
fn the_icon_is_encoded_without_padding() {
    let entry = Entry::read_at(packet(), addr(), 42);
    assert_eq!(entry.favicon.png.as_deref(), Some("aGVsbG8gd29ybGR+"));
    let mut short = packet();
    short.favicon = Some(b"hi".to_vec());
    assert_eq!(Entry::read_at(short, addr(), 42).favicon.png.as_deref(), Some("aGk"));
    let mut none = packet();
    none.favicon = None;
    assert_eq!(Entry::read_at(none, addr(), 42).favicon.png, None);
}

#[test]
fn a_description_without_a_colour_is_white() {
    let mut plain = packet();
    plain.description = chat("x", None);
    plain.sample = None;
    let entry = Entry::read_at(plain, addr(), 1);
    assert_eq!(entry.description.colour, "white");
    assert!(entry.server.sample_players.is_none());
}

#[test]
fn an_answer_with_a_bad_player_id_gives_no_entry() {
    let mut bad = packet();
    bad.sample.as_mut().unwrap()[1].id = "not-a-uuid".to_string();
    assert!(!bad.is_usable());
    assert!(Entry::try_new(bad, addr()).is_none());
    assert!(packet().is_usable());
}

#[test]
fn a_new_entry_is_stamped_by_the_clock() {
    let entry = Entry::try_new(packet(), addr()).unwrap();
    assert!(entry.server.created_at > 1_600_000_000_000_000);
    assert_eq!(entry.server.created_at, entry.server.updated_at);
    let players = entry.server.sample_players.unwrap();
    assert_eq!(players[0].last_seen, entry.server.created_at);
    assert_eq!(entry.server.ip, "mc.example.org");
    let again = Entry::new(packet(), addr());
    assert!(again.server.created_at >= entry.server.created_at);
}

#[test]
fn a_probe_outcome_becomes_a_result_or_its_error() {
    let target = OntosAddress { host: "mc.example.org:25570".to_string() };
    let entry = target.ping_server(Ok(packet())).unwrap();
    assert_eq!(entry.server.ip, "mc.example.org");
    assert_eq!(entry.server.port, 25570);
    for failure in [ScanError::Timeout, ScanError::Connect, ScanError::Protocol] {
        assert_eq!(target.ping_server(Err(failure)).err(), Some(failure));
    }
    let mut bad = packet();
    bad.sample = Some(vec![SamplePlayer { name: "x".to_string(), id: "".to_string() }]);
    assert_eq!(target.ping_server(Ok(bad)).err(), Some(ScanError::Malformed));
}

#[test]
fn a_target_that_names_no_address_is_not_probed() {
    for host in ["", "mc.example.org:port", "mc.example.org:70000", "h:", "h:-1", "h: 80"] {
        let target = OntosAddress { host: host.to_string() };
        assert!(target.address().is_none());
        assert_eq!(target.ping_server(Ok(packet())).err(), Some(ScanError::BadAddress));
        assert_eq!(target.ping_server(Err(ScanError::Timeout)).err(), Some(ScanError::BadAddress));
    }
}

#[test]
fn addresses_are_host_and_port() {
    let parse = |text: &str| ServerAddress::parse(text).map(|a| (a.host, a.port));
    assert_eq!(parse("localhost:25565"), Some(("localhost".to_string(), 25565)));
    assert_eq!(parse("10.0.0.1:80"), Some(("10.0.0.1".to_string(), 80)));
    assert_eq!(parse("mc.example.org"), Some(("mc.example.org".to_string(), 25565)));
    assert_eq!(parse("h:0"), Some(("h".to_string(), 0)));
    assert_eq!(parse("h:65535"), Some(("h".to_string(), 65535)));
    assert_eq!(parse("h:+7"), Some(("h".to_string(), 7)));
    assert_eq!(parse("h:007"), Some(("h".to_string(), 7)));
    assert_eq!(parse("h:1:2"), Some(("h".to_string(), 1)));
    assert_eq!(parse(":25565"), Some(("".to_string(), 25565)));
    assert_eq!(parse("h\u{e9}te:81"), Some(("h\u{e9}te".to_string(), 81)));
    assert_eq!(parse("h:65536"), None);
    assert_eq!(parse("h::1"), None);
    assert_eq!(parse(""), None);
    assert_eq!(parse(":"), None);
}

#[test]
fn the_empty_description_is_white_and_plain() {
    let d = Description::empty();
    assert_eq!((d.id, d.server_id), (0, 0));
    assert_eq!(d.text, "");
    assert!(!d.bold && !d.italic && !d.underline && !d.strikethrough && !d.obfuscated);
    assert_eq!(d.colour, "white");
}

#[test]
fn a_description_is_stored_without_its_style() {
    let d = Description {
        id: 9,
        server_id: 3,
        text: "motd".to_string(),
        bold: true,
        italic: true,
        underline: true,
        strikethrough: true,
        obfuscated: true,
        colour: "red".to_string(),
    };
    let row = d.model(12);
    assert_eq!(row.server_id, 12);
    assert_eq!(row.text, "motd");
    assert!(!row.bold && !row.italic && !row.underline && !row.strikethrough && !row.obfuscated);
    assert_eq!(row.colour, "false");
}

#[test]
fn a_description_is_read_back_as_stored() {
    let d = Description::from_model(DescriptionModel {
        id: 4,
        server_id: 2,
        text: "motd".to_string(),
        bold: true,
        italic: false,
        underline: true,
        strikethrough: false,
        obfuscated: true,
        colour: "aqua".to_string(),
    });
    assert_eq!((d.id, d.server_id, d.text.as_str(), d.colour.as_str()), (4, 2, "motd", "aqua"));
    assert!(d.bold && !d.italic && d.underline && !d.strikethrough && d.obfuscated);
}

#[test]
fn icons_convert_both_ways() {
    let empty = Favicon::empty();
    assert_eq!((empty.id, empty.png.clone(), empty.server_id), (0, None, 0));
    let dflt = Favicon::default();
    assert_eq!((dflt.id, dflt.png, dflt.server_id), (0, None, 0));
    let read = Favicon::from_model(FaviconModel { id: 3, server_id: 8, png: "QUJD".to_string() });
    assert_eq!((read.id, read.png.as_deref(), read.server_id), (3, Some("QUJD"), 8));
    let row = read.model(11);
    assert_eq!((row.server_id, row.png.as_str()), (11, "QUJD"));
}

#[test]
fn a_server_is_stored_with_narrowed_counts() {
    let server = Server {
        id: 5,
        ip: "h".to_string(),
        port: 65535,
        version: "v".to_string(),
        protocol: -1,
        max_players: 0x1_0000_0005,
        online_players: 0x8000_0000,
        sample_players: None,
        auth: OnlineStatus::Offline,
        created_at: 1,
        updated_at: 2,
        forge: true,
    };
    let row = server.model_at(900);
    assert_eq!(row.ip, "h");
    assert_eq!(row.port, 65535);
    assert_eq!(row.version, "v");
    assert_eq!(row.protocol, -1);
    assert_eq!(row.max_players, 5);
    assert_eq!(row.online_players, i32::MIN);
    assert_eq!(row.auth, "Offline");
    assert_eq!((row.created_at, row.updated_at), (900, 900));
    assert!(row.forge);
    let now = server.model();
    assert_eq!(now.created_at, now.updated_at);
    assert!(now.created_at > 1_600_000_000_000_000);
}

#[test]
fn a_server_is_read_back_with_widened_counts() {
    let server = Server::from_model(ServerModel {
        id: 7,
        ip: "h".to_string(),
        port: 70_000,
        version: "v".to_string(),
        protocol: 47,
        max_players: 20,
        online_players: -1,
        auth: "Online".to_string(),
        created_at: 3,
        updated_at: 4,
        forge: false,
    });
    assert_eq!(server.id, 7);
    assert_eq!(server.port, 4464);
    assert_eq!(server.max_players, 20);
    assert_eq!(server.online_players, usize::MAX);
    assert_eq!(server.auth, OnlineStatus::Online);
    assert!(server.sample_players.is_none());
    assert_eq!((server.created_at, server.updated_at), (3, 4));
    let negative = Server::from_model(ServerModel {
        id: 7,
        ip: "h".to_string(),
        port: -1,
        version: "v".to_string(),
        protocol: 47,
        max_players: i32::MIN,
        online_players: 0,
        auth: "?".to_string(),
        created_at: 3,
        updated_at: 4,
        forge: false,
    });
    assert_eq!(negative.port, 65535);
    assert_eq!(negative.max_players, usize::MAX - (i32::MAX as usize));
    assert_eq!(negative.auth, OnlineStatus::Offline);
}

#[test]
fn players_are_stored_with_hyphenated_uuids() {
    let list = vec![
        OntosPlayer { name: "Notch".to_string(), uuid: 0x069a79f444e94726a5befca90e38aaf5, last_seen: 1, server_id: 0 },
        OntosPlayer { name: "zero".to_string(), uuid: 0, last_seen: 2, server_id: 0 },
    ];
    let rows = OntosPlayer::from_sample_at(list.clone(), 6, 1234);
    assert_eq!(rows.len(), 2);
    assert_eq!(rows[0].name, "Notch");
    assert_eq!(rows[0].uuid, "069a79f4-44e9-4726-a5be-fca90e38aaf5");
    assert_eq!((rows[0].last_seen, rows[0].server_id), (1234, 6));
    assert_eq!(rows[1].uuid, "00000000-0000-0000-0000-000000000000");
    let now = OntosPlayer::from_sample(list, 6);
    assert_eq!(now.len(), 2);
    assert_eq!(now[0].last_seen, now[1].last_seen);
    assert_eq!(now[1].server_id, 6);
    assert!(OntosPlayer::from_sample_at(Vec::new(), 1, 1).is_empty());
}

#[test]
fn an_entry_is_assembled_from_stored_rows() {
    let server = ServerModel {
        id: 7,
        ip: "h".to_string(),
        port: 25565,
        version: "v".to_string(),
        protocol: 47,
        max_players: 20,
        online_players: 2,
        auth: "Online".to_string(),
        created_at: 3,
        updated_at: 4,
        forge: false,
    };
    let bare = Entry::from_models(server.clone(), None, None);
    assert_eq!(bare.server.id, 7);
    assert_eq!(bare.description.colour, "white");
    assert_eq!(bare.description.text, "");
    assert!(bare.favicon.png.is_none());
    let full = Entry::from_models(
        server,
        Some(DescriptionModel {
            id: 1,
            server_id: 7,
            text: "t".to_string(),
            bold: false,
            italic: false,
            underline: false,
            strikethrough: false,
            obfuscated: false,
            colour: "false".to_string(),
        }),
        Some(FaviconModel { id: 2, server_id: 7, png: "QQ".to_string() }),
    );
    assert_eq!(full.description.text, "t");
    assert_eq!(full.description.server_id, 7);
    assert_eq!(full.favicon.png.as_deref(), Some("QQ"));
}
