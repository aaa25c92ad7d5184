use voyager::database::ips::get_all_ips;
use voyager::database::store::Store;
use voyager::database::DbStats;
use voyager::scanner::rescan::{step, RescanStatus, SchedulerAction, SchedulerEvent, SchedulerState};
use voyager::scanner::worker::{run_blocking, upload_servers, ScanJob};
use voyager::util::types::{Chat, OntosAddress, PingResponse, ScanError};
use voyager::web::server::AppState;

fn answer(online: usize) -> PingResponse {
    PingResponse {
        version: "1.20.1".to_string(),
        protocol: 763,
        max_players: 20,
        online_players: online,
        sample: None,
        description: Chat {
            text: "hello".to_string(),
            bold: false,
            italic: false,
            underlined: false,
            strikethrough: false,
            obfuscated: false,
            color: None,
        },
        favicon: None,
        forge: false,
    }
}

fn scan(job: &ScanJob, receiver: &mut AppState, now: i64, fail_every: usize) -> (usize, usize) {
    let mut probed = 0;
    let mut uploads = 0;
    for mut worker in run_blocking(job) {
        while let Some(host) = worker.next_target() {
            probed += 1;
            let outcome =
                if fail_every > 0 && probed % fail_every == 0 { Err(ScanError::Timeout) } else { Ok(answer(probed)) };
            let result = OntosAddress { host }.ping_server(outcome).ok();
            if let Some(batch) = worker.record(result) {
                let upload = upload_servers(batch, "localhost", "8080");
                assert_eq!(upload.url, "http://localhost:8080/upload");
                let response = receiver.upload_servers(upload.request, now);
                assert_eq!(response.status, 200);
                uploads += 1;
            }
        }
        assert!(worker.unflushed() < 10);
    }
    (probed, uploads)
}

#[test]
fn a_scan_reaches_storage_in_batches_of_ten_after_a_flush() {
    let hosts: Vec<String> = (0..50).map(|i| format!("10.1.0.{}:{}", i, 25565 + i)).collect();
    let job = ScanJob::new(hosts, Some(5), Some(2)).unwrap();
    let mut receiver = AppState::new(Store::new());

    let (probed, uploads) = scan(&job, &mut receiver, 1_000, 0);
    assert_eq!(probed, 50);
    assert_eq!(uploads, 4);
    assert_eq!(receiver.txn_queue.len(), 40);
    assert!(receiver.database.servers.is_empty());

    assert_eq!(receiver.flush(), 0);
    assert_eq!(receiver.database.servers.len(), 40);
    assert_eq!(receiver.database.ips.len(), 40);
    assert_eq!(receiver.database.descriptions.len(), 40);
    assert_eq!(receiver.database.create_stats(), DbStats { ips: 40, servers: 40, players: 0 });
    assert_eq!(receiver.database.servers[0].ip, "10.1.0.24");
    assert_eq!(receiver.database.servers[0].port, 25589);
    let stored = get_all_ips(&receiver.database.ips, false);
    assert_eq!(stored.len(), 40);
    assert_eq!(stored[0], "10.1.0.24:25589");
    assert!(!stored.contains(&"10.1.0.0:25565".to_string()));
    assert!(!stored.contains(&"10.1.0.4:25569".to_string()));
    assert!(stored.contains(&"10.1.0.5:25570".to_string()));
}

#[test]
fn scanning_again_updates_and_adds_nothing() {
    let hosts: Vec<String> = (0..20).map(|i| format!("10.2.0.{}", i)).collect();
    let mut receiver = AppState::new(Store::new());
    let first = ScanJob::new(hosts.clone(), None, Some(1)).unwrap();
    scan(&first, &mut receiver, 1_000, 0);
    receiver.flush();
    assert_eq!(receiver.database.servers.len(), 20);
    let second = ScanJob::new(hosts, None, Some(2)).unwrap();
    scan(&second, &mut receiver, 2_000, 0);
    assert_eq!(receiver.stats, DbStats { ips: 20, servers: 20, players: 0 });
    receiver.flush();
    assert_eq!(receiver.database.servers.len(), 20);
    assert_eq!(receiver.database.ips.len(), 20);
    assert_eq!(receiver.database.descriptions.len(), 20);
    for row in &receiver.database.servers {
        assert_eq!(row.port, 25565);
        assert_eq!(row.created_at, 1_000);
        assert_eq!(row.updated_at, 2_000);
    }
    for row in &receiver.database.ips {
        assert_eq!(row.last_scanned, Some(2_000));
    }
}

#[test]
fn failed_probes_do_not_stop_a_worker() {
    let hosts: Vec<String> = (0..30).map(|i| format!("10.3.0.{}:1", i)).collect();
    let job = ScanJob::new(hosts, None, Some(1)).unwrap();
    let mut receiver = AppState::new(Store::new());
    let (probed, uploads) = scan(&job, &mut receiver, 1, 3);
    assert_eq!(probed, 30);
    assert_eq!(uploads, 2);
    assert_eq!(receiver.txn_queue.len(), 20);
}

#[test]
fn a_rescan_feeds_stored_addresses_back_into_a_job() {
    let mut receiver = AppState::new(Store::new());
    let hosts: Vec<String> = (0..10).map(|i| format!("10.4.0.{}:7", i)).collect();
    scan(&ScanJob::new(hosts, None, None).unwrap(), &mut receiver, 5, 0);
    receiver.flush();

    let (state, action) = step(SchedulerState::Waiting, SchedulerEvent::Woke);
    assert!(matches!(action, SchedulerAction::ReadSwitch));
    let (state, action) = step(state, SchedulerEvent::Switch(RescanStatus::Active));
    assert!(matches!(action, SchedulerAction::ReadTargets));
    let targets = get_all_ips(&receiver.database.ips, true);
    assert!(targets.is_empty());
    let (state, action) = step(state, SchedulerEvent::Targets(targets));
    let job = match action {
        SchedulerAction::Run(job) => job,
        _ => panic!("a job was due"),
    };
    assert!(run_blocking(&job).is_empty());
    let (state, _) = step(state, SchedulerEvent::JobDone);
    assert_eq!(state, SchedulerState::Waiting);
}
