use voyager::database::entities::{DescriptionInsert, IpInsert, PlayerInsert, ServerInsert};
use voyager::database::store::{PendingTransaction, Store};
use voyager::database::DbStats;
use voyager::util::types::{Description, Entry, Favicon, OnlineStatus, OntosPlayer, Server};
use voyager::web::server::{
    error, index, success, AppState, CommitQueue, FlushCycle, WebRequest,
};

fn server(ip: &str, port: u16, version: &str, online: usize) -> Server {
    Server {
        id: 0,
        ip: ip.to_string(),
        port,
        version: version.to_string(),
        protocol: 763,
        max_players: 100,
        online_players: online,
        sample_players: None,
        auth: OnlineStatus::Online,
        created_at: 0,
        updated_at: 0,
        forge: false,
    }
}

fn description(text: &str) -> Description {
    Description {
        id: 0,
        server_id: 0,
        text: text.to_string(),
        bold: true,
        italic: false,
        underline: false,
        strikethrough: false,
        obfuscated: false,
        colour: "gold".to_string(),
    }
}

fn entry(ip: &str, port: u16, version: &str, text: &str) -> Entry {
    Entry {
        server: server(ip, port, version, 5),
        description: description(text),
        favicon: Favicon::empty(),
    }
}

fn player(name: &str, uuid: u128) -> OntosPlayer {
    OntosPlayer { name: name.to_string(), uuid, last_seen: 0, server_id: 0 }
}

fn server_values(ip: &str, port: i32, version: &str, at: i64) -> ServerInsert {
    ServerInsert {
        ip: ip.to_string(),
        port,
        version: version.to_string(),
        protocol: 763,
        max_players: 20,
        online_players: 1,
        auth: "Online".to_string(),
        created_at: at,
        updated_at: at,
        forge: false,
    }
}

fn description_values(server_id: i32, text: &str, colour: &str) -> DescriptionInsert {
    DescriptionInsert {
        server_id,
        text: text.to_string(),
        bold: false,
        italic: false,
        underline: false,
        strikethrough: false,
        obfuscated: false,
        colour: colour.to_string(),
    }
}

#[test]
fn a_new_store_is_empty() {
    let store = Store::new();
    assert_eq!(store.create_stats(), DbStats { ips: 0, servers: 0, players: 0 });
}

#[test]
fn ingesting_the_same_address_twice_keeps_one_server() {
    let mut store = Store::new();
    let first = entry("10.0.0.1", 25565, "1.19.4", "hello");
    let mut second = entry("10.0.0.1", 25565, "1.20.1", "hello");
    second.server.protocol = 764;
    second.server.max_players = 50;
    second.server.online_players = 7;
    second.server.auth = OnlineStatus::Offline;
    second.server.forge = true;
    let first_id = store.add_server(first, 1_000).unwrap();
    let second_id = store.add_server(second, 2_000).unwrap();
    assert_eq!(first_id, 1);
    assert_eq!(second_id, 1);
    assert_eq!(store.servers.len(), 1);
    let row = &store.servers[0];
    assert_eq!(row.id, 1);
    assert_eq!(row.ip, "10.0.0.1");
    assert_eq!(row.port, 25565);
    assert_eq!(row.version, "1.20.1");
    assert_eq!(row.protocol, 764);
    assert_eq!(row.max_players, 50);
    assert_eq!(row.online_players, 7);
    assert_eq!(row.auth, "Offline");
    assert!(row.forge);
    assert_eq!(row.created_at, 1_000);
    assert_eq!(row.updated_at, 2_000);
    assert_eq!(store.ips.len(), 1);
    assert_eq!(store.ips[0].last_scanned, Some(2_000));
    assert_eq!(store.descriptions.len(), 1);
}

#[test]
fn servers_differ_by_port() {
    let mut store = Store::new();
    assert_eq!(store.add_server(entry("10.0.0.1", 25565, "a", "x"), 1), Ok(1));
    assert_eq!(store.add_server(entry("10.0.0.1", 25566, "a", "x"), 2), Ok(2));
    assert_eq!(store.add_server(entry("10.0.0.2", 25565, "a", "x"), 3), Ok(3));
    assert_eq!(store.servers.len(), 3);
    assert_eq!(store.ips.len(), 3);
    assert_eq!(store.descriptions.len(), 3);
    assert_eq!(store.find_server(&"10.0.0.1".to_string(), 25566), Some(1));
    assert_eq!(store.find_server(&"10.0.0.3".to_string(), 25565), None);
}

#[test]
fn descriptions_with_the_same_text_collapse() {
    let mut store = Store::new();
    store.add_server(entry("10.0.0.1", 25565, "a", "welcome"), 1).unwrap();
    store.add_server(entry("10.0.0.1", 25565, "a", "welcome"), 2).unwrap();
    assert_eq!(store.descriptions.len(), 1);
    assert_eq!(store.descriptions[0].server_id, 1);
    assert_eq!(store.descriptions[0].text, "welcome");
}

#[test]
fn descriptions_with_different_text_both_persist() {
    let mut store = Store::new();
    store.add_server(entry("10.0.0.1", 25565, "a", "welcome"), 1).unwrap();
    store.add_server(entry("10.0.0.1", 25565, "a", "closed today"), 2).unwrap();
    assert_eq!(store.servers.len(), 1);
    assert_eq!(store.descriptions.len(), 2);
    assert_eq!(store.descriptions[0].text, "welcome");
    assert_eq!(store.descriptions[1].text, "closed today");
    assert_eq!(store.descriptions[0].server_id, store.descriptions[1].server_id);
}

#[test]
fn description_upsert_restyles_the_row_with_the_same_text() {
    let mut store = Store::new();
    store.upsert_description(description_values(4, "motd", "red"));
    store.upsert_description(description_values(4, "motd", "blue"));
    store.upsert_description(description_values(5, "motd", "green"));
    assert_eq!(store.descriptions.len(), 2);
    assert_eq!(store.descriptions[0].colour, "blue");
    assert_eq!(store.descriptions[0].id, 1);
    assert_eq!(store.descriptions[1].colour, "green");
    assert_eq!(store.descriptions[1].id, 2);
}

#[test]
fn stored_descriptions_lose_their_style() {
    let mut store = Store::new();
    store.add_server(entry("10.0.0.1", 25565, "a", "welcome"), 1).unwrap();
    let row = &store.descriptions[0];
    assert!(!row.bold && !row.italic && !row.underline && !row.strikethrough && !row.obfuscated);
    assert_eq!(row.colour, "false");
}

#[test]
fn server_upsert_keeps_id_and_creation_time() {
    let mut store = Store::new();
    assert_eq!(store.upsert_server(server_values("a", 1, "v1", 10)), 1);
    assert_eq!(store.upsert_server(server_values("b", 1, "v1", 20)), 2);
    assert_eq!(store.upsert_server(server_values("a", 1, "v2", 30)), 1);
    assert_eq!(store.servers.len(), 2);
    assert_eq!(store.servers[0].version, "v2");
    assert_eq!(store.servers[0].created_at, 10);
    assert_eq!(store.servers[0].updated_at, 30);
    assert_eq!(store.servers[1].version, "v1");
    assert_eq!(store.servers[1].updated_at, 20);
}

#[test]
fn ip_upsert_renews_the_scan_time() {
    let mut store = Store::new();
    store.upsert_ip(IpInsert { ip: "a".to_string(), port: 1, last_scanned: None });
    store.upsert_ip(IpInsert { ip: "a".to_string(), port: 1, last_scanned: Some(9) });
    store.upsert_ip(IpInsert { ip: "a".to_string(), port: 2, last_scanned: Some(3) });
    assert_eq!(store.ips.len(), 2);
    assert_eq!(store.ips[0].last_scanned, Some(9));
    assert_eq!(store.ips[1].id, 2);
    assert_eq!(store.find_ip(&"a".to_string(), 2), Some(1));
}

#[test]
fn player_upsert_renews_only_last_seen() {
    let mut store = Store::new();
    let row = |name: &str, seen: i64| PlayerInsert {
        name: name.to_string(),
        uuid: "069a79f4-44e9-4726-a5be-fca90e38aaf5".to_string(),
        last_seen: seen,
        server_id: 1,
    };
    store.upsert_player(row("Notch", 5));
    store.upsert_player(row("Renamed", 8));
    assert_eq!(store.players.len(), 1);
    assert_eq!(store.players[0].name, "Notch");
    assert_eq!(store.players[0].last_seen, 8);
}

#[test]
fn sampled_players_are_stored_under_the_server() {
    let mut store = Store::new();
    store.add_server(entry("10.0.0.9", 25565, "a", "x"), 1).unwrap();
    let mut with_sample = entry("10.0.0.1", 25565, "a", "x");
    with_sample.server.sample_players = Some(vec![
        player("Notch", 0x069a79f444e94726a5befca90e38aaf5),
        player("jeb_", 0x853c80ef3c3749fdaa49938b674adae6),
    ]);
    assert_eq!(store.add_server(with_sample, 77), Ok(2));
    assert_eq!(store.players.len(), 2);
    assert_eq!(store.players[0].name, "Notch");
    assert_eq!(store.players[0].uuid, "069a79f4-44e9-4726-a5be-fca90e38aaf5");
    assert_eq!(store.players[0].server_id, 2);
    assert_eq!(store.players[0].last_seen, 77);
    assert_eq!(store.players[1].uuid, "853c80ef-3c37-49fd-aa49-938b674adae6");
    assert_eq!(store.create_stats(), DbStats { ips: 2, servers: 2, players: 2 });
}

#[test]
fn an_icon_is_stored_once_per_server() {
    let mut store = Store::new();
    let mut first = entry("10.0.0.1", 25565, "a", "x");
    first.favicon.png = Some("AAAA".to_string());
    let mut second = entry("10.0.0.1", 25565, "a", "x");
    second.favicon.png = Some("BBBB".to_string());
    let third = entry("10.0.0.1", 25565, "a", "x");
    store.add_server(first, 1).unwrap();
    store.add_server(second, 2).unwrap();
    store.add_server(third, 3).unwrap();
    assert_eq!(store.favicons.len(), 1);
    assert_eq!(store.favicons[0].png, "BBBB");
    assert_eq!(store.favicons[0].server_id, 1);
}

#[test]
fn an_upload_is_not_visible_until_it_is_flushed() {
    let mut state = AppState::new(Store::new());
    let request = WebRequest {
        server_id: None,
        servers: Some(vec![entry("10.0.0.1", 25565, "a", "x"), entry("10.0.0.2", 25565, "a", "y")]),
    };
    let response = state.upload_servers(request, 500);
    assert_eq!(response.status, 200);
    assert_eq!(response.message, "success");
    assert!(response.data.is_none());
    assert_eq!(state.txn_queue.len(), 2);
    assert!(state.database.servers.is_empty());
    assert!(state.database.ips.is_empty());
    assert!(state.database.descriptions.is_empty());
    assert_eq!(state.stats, DbStats { ips: 0, servers: 0, players: 0 });

    assert_eq!(state.flush(), 0);
    assert!(state.txn_queue.is_empty());
    assert_eq!(state.database.servers.len(), 2);
    assert_eq!(state.database.servers[0].ip, "10.0.0.1");
    assert_eq!(state.database.servers[1].ip, "10.0.0.2");
    assert_eq!(state.database.servers[0].updated_at, 500);
    assert_eq!(state.stats, DbStats { ips: 0, servers: 0, players: 0 });
}

#[test]
fn a_lost_queue_never_reaches_storage() {
    let mut state = AppState::new(Store::new());
    let request =
        WebRequest { server_id: None, servers: Some(vec![entry("10.0.0.1", 25565, "a", "x")]) };
    state.upload_servers(request, 500);
    state.txn_queue = CommitQueue::new();
    assert_eq!(state.flush(), 0);
    assert!(state.database.servers.is_empty());
    assert!(state.database.ips.is_empty());
}

#[test]
fn counts_are_taken_at_upload_from_what_is_committed() {
    let mut state = AppState::new(Store::new());
    let batch = |ip: &str| WebRequest {
        server_id: None,
        servers: Some(vec![entry(ip, 25565, "a", "x")]),
    };
    state.upload_servers(batch("10.0.0.1"), 1);
    state.flush();
    state.upload_servers(batch("10.0.0.2"), 2);
    assert_eq!(state.stats, DbStats { ips: 1, servers: 1, players: 0 });
    assert_eq!(state.txn_queue.len(), 1);
}

#[test]
fn an_upload_without_a_batch_is_refused() {
    let mut state = AppState::new(Store::new());
    let response = state.upload_servers(WebRequest::default(), 1);
    assert_eq!(response.status, 400);
    assert_eq!(response.message, "No servers provided");
    assert!(state.txn_queue.is_empty());
}

#[test]
fn transactions_commit_in_the_order_in_which_they_came() {
    let mut store = Store::new();
    let pending = vec![
        PendingTransaction { entry: entry("10.0.0.1", 25565, "old", "x"), at: 1 },
        PendingTransaction { entry: entry("10.0.0.2", 25565, "other", "x"), at: 2 },
        PendingTransaction { entry: entry("10.0.0.1", 25565, "new", "x"), at: 3 },
    ];
    assert_eq!(store.commit_all(pending), 0);
    assert_eq!(store.servers.len(), 2);
    assert_eq!(store.servers[0].version, "new");
    assert_eq!(store.servers[0].created_at, 1);
    assert_eq!(store.servers[0].updated_at, 3);
    assert_eq!(store.servers[1].version, "other");
}

#[test]
fn two_flushes_give_what_one_gives() {
    let txn = |ip: &str, version: &str, at: i64| PendingTransaction {
        entry: entry(ip, 25565, version, "x"),
        at,
    };
    let mut once = Store::new();
    once.commit_all(vec![txn("a", "1", 1), txn("b", "1", 2), txn("a", "2", 3), txn("c", "1", 4)]);
    let mut twice = Store::new();
    twice.commit_all(vec![txn("a", "1", 1), txn("b", "1", 2)]);
    twice.commit_all(vec![txn("a", "2", 3), txn("c", "1", 4)]);
    assert_eq!(once.servers.len(), twice.servers.len());
    for (x, y) in once.servers.iter().zip(twice.servers.iter()) {
        assert_eq!((x.id, &x.ip, &x.version, x.created_at, x.updated_at),
            (y.id, &y.ip, &y.version, y.created_at, y.updated_at));
    }
}

#[test]
fn the_queue_hands_out_everything_in_order_and_is_empty_after() {
    let mut queue: CommitQueue<u32> = CommitQueue::new();
    assert!(queue.is_empty());
    queue.push(3);
    queue.push(1);
    queue.push(2);
    assert_eq!(queue.len(), 3);
    assert_eq!(queue.take_all(), vec![3, 1, 2]);
    assert!(queue.is_empty());
    assert_eq!(queue.take_all(), Vec::<u32>::new());
}

#[test]
fn the_flusher_sleeps_five_seconds_after_a_commit() {
    let mut queue: CommitQueue<u32> = CommitQueue::new();
    assert!(matches!(queue.flush_cycle(), FlushCycle::Idle));
    queue.push(7);
    queue.push(8);
    match queue.flush_cycle() {
        FlushCycle::Commit { batch, sleep_secs } => {
            assert_eq!(batch, vec![7, 8]);
            assert_eq!(sleep_secs, 5);
        },
        FlushCycle::Idle => panic!("the queue held two transactions"),
    }
    assert!(queue.is_empty());
}

#[test]
fn answers_carry_status_and_message() {
    let ok = success(None, None);
    assert_eq!((ok.status, ok.message.as_str()), (200, "success"));
    let ok = success(Some("done"), None);
    assert_eq!((ok.status, ok.message.as_str()), (200, "done"));
    let bad = error("nope");
    assert_eq!((bad.status, bad.message.as_str()), (400, "nope"));
    assert!(bad.data.is_none());
}

#[test]
fn the_index_reports_the_counts() {
    let counts = DbStats { ips: 5, servers: 3, players: 9 };
    let response = index(&counts, true);
    assert_eq!(response.status, 200);
    let stats = response.data.unwrap().stats.unwrap();
    assert_eq!(stats.status, "ok");
    assert_eq!(stats.runtime_mode, "debug");
    assert_eq!((stats.stored_ips, stats.stored_servers, stats.stored_players), (5, 3, 9));
    let stats = index(&counts, false).data.unwrap().stats.unwrap();
    assert_eq!(stats.runtime_mode, "release");
}
