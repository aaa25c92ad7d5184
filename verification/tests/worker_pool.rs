use voyager::scanner::worker::{upload_delivered, upload_servers, run_blocking, ScanJob, SliceWorker};
use voyager::util::types::{Description, Entry, Favicon, OnlineStatus, Server};

fn hosts(n: usize) -> Vec<String> {
    (0..n).map(|i| format!("10.0.0.{}:25565", i)).collect()
}

fn entry(name: &str) -> Entry {
    Entry {
        server: Server {
            id: 0,
            ip: name.to_string(),
            port: 25565,
            version: "1.20.1".to_string(),
            protocol: 763,
            max_players: 20,
            online_players: 3,
            sample_players: None,
            auth: OnlineStatus::Online,
            created_at: 1,
            updated_at: 1,
            forge: false,
        },
        description: Description::empty(),
        favicon: Favicon::empty(),
    }
}

fn job(n: usize, workers: usize) -> ScanJob {
    ScanJob { ips: hosts(n), timeout: 10, workers }
}

#[test]
fn new_job_refuses_an_empty_list() {
    assert!(ScanJob::new(Vec::new(), Some(3), Some(4)).is_none());
}

#[test]
fn new_job_defaults_to_ten_seconds_and_one_worker() {
    let job = ScanJob::new(hosts(2), None, None).unwrap();
    assert_eq!(job.timeout, 10);
    assert_eq!(job.workers, 1);
    assert_eq!(job.ips, hosts(2));
}

#[test]
fn new_job_keeps_what_it_is_given() {
    let job = ScanJob::new(hosts(3), Some(7), Some(4)).unwrap();
    assert_eq!(job.timeout, 7);
    assert_eq!(job.workers, 4);
}

#[test]
fn new_job_raises_zero_workers_to_one() {
    let job = ScanJob::new(hosts(3), Some(7), Some(0)).unwrap();
    assert_eq!(job.workers, 1);
}

#[test]
fn new_job_wraps_a_negative_timeout() {
    let job = ScanJob::new(hosts(1), Some(-1), None).unwrap();
    assert_eq!(job.timeout, u64::MAX);
    let job = ScanJob::new(hosts(1), Some(i32::MIN), None).unwrap();
    assert_eq!(job.timeout, u64::MAX - (i32::MAX as u64));
}

#[test]
fn partition_of_ten_among_three_has_four_chunks() {
    let chunks = job(10, 3).partition();
    let sizes: Vec<usize> = chunks.iter().map(|c| c.len()).collect();
    assert_eq!(sizes, vec![3, 3, 3, 1]);
    let joined: Vec<String> = chunks.into_iter().flatten().collect();
    assert_eq!(joined, hosts(10));
}

#[test]
fn partition_is_complete_when_the_list_divides_evenly() {
    let chunks = job(12, 4).partition();
    let sizes: Vec<usize> = chunks.iter().map(|c| c.len()).collect();
    assert_eq!(sizes, vec![3, 3, 3, 3]);
    let joined: Vec<String> = chunks.into_iter().flatten().collect();
    assert_eq!(joined, hosts(12));
}

#[test]
fn partition_with_more_workers_than_targets_gives_single_targets() {
    let chunks = job(3, 8).partition();
    let sizes: Vec<usize> = chunks.iter().map(|c| c.len()).collect();
    assert_eq!(sizes, vec![1, 1, 1]);
    let joined: Vec<String> = chunks.into_iter().flatten().collect();
    assert_eq!(joined, hosts(3));
}

#[test]
fn partition_with_one_worker_is_the_whole_list() {
    let chunks = job(7, 1).partition();
    assert_eq!(chunks, vec![hosts(7)]);
}

#[test]
fn partition_of_one_target() {
    let chunks = job(1, 5).partition();
    assert_eq!(chunks, vec![hosts(1)]);
}

#[test]
fn partition_of_nothing_is_nothing() {
    let chunks = job(0, 10).partition();
    assert!(chunks.is_empty());
}

#[test]
fn partition_covers_every_list_that_fits() {
    for workers in 1..12usize {
        for len in 1..60usize {
            let size = std::cmp::max(1, len / workers);
            let chunks = job(len, workers).partition();
            let joined: Vec<String> = chunks.iter().flatten().cloned().collect();
            let reach = std::cmp::min(len, (workers + 1) * size);
            assert_eq!(joined, hosts(len)[..reach].to_vec());
            if len <= (workers + 1) * size {
                assert_eq!(joined, hosts(len));
            }
            assert!(chunks.len() <= workers + 1);
            for chunk in &chunks[..chunks.len() - 1] {
                assert_eq!(chunk.len(), size);
            }
        }
    }
}

#[test]
fn partition_of_five_among_three_hands_out_four() {
    let chunks = job(5, 3).partition();
    let joined: Vec<String> = chunks.into_iter().flatten().collect();
    assert_eq!(joined, hosts(5)[..4].to_vec());
}

#[test]
fn run_blocking_gives_each_chunk_a_worker() {
    let workers = run_blocking(&job(10, 3));
    assert_eq!(workers.len(), 4);
    assert_eq!(workers[0].remaining, hosts(10)[0..3].to_vec());
    assert_eq!(workers[3].remaining, hosts(10)[9..10].to_vec());
    assert!(workers.iter().all(|w| w.batch.is_empty()));
}

#[test]
fn worker_probes_the_last_target_first() {
    let mut worker = SliceWorker::new(hosts(3));
    assert_eq!(worker.next_target(), Some("10.0.0.2:25565".to_string()));
    assert_eq!(worker.next_target(), Some("10.0.0.1:25565".to_string()));
    assert_eq!(worker.next_target(), Some("10.0.0.0:25565".to_string()));
    assert_eq!(worker.next_target(), None);
    assert_eq!(worker.next_target(), None);
}

#[test]
fn twenty_five_results_give_two_uploads_and_five_are_dropped() {
    let mut worker = SliceWorker::new(hosts(25));
    let mut uploads: Vec<Vec<Entry>> = Vec::new();
    let mut probed = 0;
    while let Some(host) = worker.next_target() {
        probed += 1;
        if let Some(batch) = worker.record(Some(entry(&host))) {
            uploads.push(batch);
        }
    }
    assert_eq!(probed, 25);
    assert_eq!(uploads.len(), 2);
    assert_eq!(uploads[0].len(), 10);
    assert_eq!(uploads[1].len(), 10);
    assert_eq!(uploads[0][0].server.ip, "10.0.0.24:25565");
    assert_eq!(uploads[1][9].server.ip, "10.0.0.5:25565");
    assert_eq!(worker.unflushed(), 5);
    assert_eq!(worker.next_target(), None);
    assert_eq!(worker.batch[0].server.ip, "10.0.0.4:25565");
}

#[test]
fn a_failed_probe_is_skipped() {
    let mut worker = SliceWorker::new(hosts(12));
    let mut uploads = 0;
    let mut turn = 0;
    while let Some(host) = worker.next_target() {
        let outcome = if turn % 2 == 0 { Some(entry(&host)) } else { None };
        if worker.record(outcome).is_some() {
            uploads += 1;
        }
        turn += 1;
    }
    assert_eq!(uploads, 0);
    assert_eq!(worker.unflushed(), 6);
}

#[test]
fn exactly_ten_results_are_uploaded_at_once() {
    let mut worker = SliceWorker::new(Vec::new());
    for i in 0..9 {
        assert!(worker.record(Some(entry(&i.to_string()))).is_none());
    }
    let batch = worker.record(Some(entry("9"))).unwrap();
    assert_eq!(batch.len(), 10);
    assert_eq!(worker.unflushed(), 0);
}

#[test]
fn upload_goes_to_the_upload_path() {
    let upload = upload_servers(vec![entry("a"), entry("b")], "census.example", "8080");
    assert_eq!(upload.url, "http://census.example:8080/upload");
    assert_eq!(upload.request.servers.unwrap().len(), 2);
    assert!(upload.request.server_id.is_none());
}

#[test]
fn only_status_200_counts_as_delivered() {
    assert!(upload_delivered(200));
    assert!(!upload_delivered(400));
    assert!(!upload_delivered(500));
}
