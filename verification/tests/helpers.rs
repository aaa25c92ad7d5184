use voyager::database::entities::IpModel;
use voyager::database::{
    draw_ip_id, first_names, get_random_ip, get_some_ips, random_ip_id, Filter, Matching,
    QueryError, QueryParams, ServerColumn,
};
use voyager::scanner::http::routes::{
    index, multi_scan, multi_scan_failed, single_scan, single_scan_failed, ScanInput,
};
use voyager::scanner::http::{error, success};
use voyager::util::convert::{i32_to_u16, i32_to_u64, i32_to_usize, usize_to_i32};
use voyager::util::logs::{init_logs, LogLevel};
use voyager::util::misc::{
    check_env, decode_favicon, env_keys, image_field, image_url, strip_ansi, wh_send, WHLog,
    DEFAULT_IMAGE,
};
use voyager::util::text::{decimal_string, host_string, unsigned_string};
use voyager::web::server::{draw_server_id, lookup_response, pick_server_id, server_query};

fn params(column: &str, value: &str) -> QueryParams {
    QueryParams { column: column.to_string(), value: value.to_string() }
}

fn rows(n: i32) -> Vec<IpModel> {
    (0..n).map(|i| IpModel { id: i, ip: format!("h{}", i), port: 100 + i, last_scanned: None }).collect()
}

#[test]
fn decimal_notation() {
    assert_eq!(decimal_string(0), "0");
    assert_eq!(decimal_string(7), "7");
    assert_eq!(decimal_string(10), "10");
    assert_eq!(decimal_string(25565), "25565");
    assert_eq!(decimal_string(-1), "-1");
    assert_eq!(decimal_string(-9001), "-9001");
    assert_eq!(decimal_string(i64::MAX), "9223372036854775807");
    assert_eq!(decimal_string(i64::MIN), "-9223372036854775808");
    assert_eq!(unsigned_string(u64::MAX), "18446744073709551615");
    assert_eq!(unsigned_string(0), "0");
}

#[test]
fn host_names_join_host_and_port() {
    assert_eq!(host_string("10.0.0.1", 25565), "10.0.0.1:25565");
    assert_eq!(host_string("mc.example.org", -1), "mc.example.org:-1");
    assert_eq!(host_string("", 0), ":0");
}

#[test]
fn casts_wrap_as_stated() {
    assert_eq!(usize_to_i32(0), 0);
    assert_eq!(usize_to_i32(0x7fff_ffff), i32::MAX);
    assert_eq!(usize_to_i32(0x8000_0000), i32::MIN);
    assert_eq!(usize_to_i32(0xffff_ffff), -1);
    assert_eq!(i32_to_u16(25565), 25565);
    assert_eq!(i32_to_u16(65536), 0);
    assert_eq!(i32_to_u16(-1), 65535);
    assert_eq!(i32_to_u16(i32::MIN), 0);
    assert_eq!(i32_to_usize(5), 5);
    assert_eq!(i32_to_usize(-1), usize::MAX);
    assert_eq!(i32_to_u64(10), 10);
    assert_eq!(i32_to_u64(-2), u64::MAX - 1);
}

#[test]
fn the_seven_columns_are_known() {
    assert_eq!(params("id", "").to_column(), Ok(ServerColumn::Id));
    assert_eq!(params("ip", "").to_column(), Ok(ServerColumn::Ip));
    assert_eq!(params("version", "").to_column(), Ok(ServerColumn::Version));
    assert_eq!(params("protocol", "").to_column(), Ok(ServerColumn::Protocol));
    assert_eq!(params("max_players", "").to_column(), Ok(ServerColumn::MaxPlayers));
    assert_eq!(params("online_players", "").to_column(), Ok(ServerColumn::OnlinePlayers));
    assert_eq!(params("auth", "").to_column(), Ok(ServerColumn::Auth));
}

#[test]
fn any_other_column_is_refused() {
    for name in ["", "ID", "port", "forge", "id ", "created_at", "ip;drop table servers"] {
        assert_eq!(params(name, "1").to_column(), Err(QueryError::InvalidColumn));
        assert_eq!(params(name, "1").filter().err(), Some(QueryError::InvalidColumn));
    }
    assert_eq!(QueryError::InvalidColumn.message(), "Invalid column");
}

#[test]
fn a_number_is_matched_exactly_and_text_by_containment() {
    let f = params("protocol", "763").filter().unwrap();
    assert_eq!(f.column, ServerColumn::Protocol);
    assert!(matches!(f.matching, Matching::Equals(763)));
    let f = params("id", "-12").filter().unwrap();
    assert!(matches!(f.matching, Matching::Equals(-12)));
    let f = params("version", "Paper").filter().unwrap();
    assert_eq!(f.column, ServerColumn::Version);
    assert!(matches!(f.matching, Matching::Like(p) if p == "%Paper%"));
    let f = params("ip", "99999999999").filter().unwrap();
    assert!(matches!(f.matching, Matching::Like(p) if p == "%99999999999%"));
    let f = params("ip", "").filter().unwrap();
    assert!(matches!(f.matching, Matching::Like(p) if p == "%%"));
    let f = Filter::of(ServerColumn::Auth, "7", None);
    assert!(matches!(f.matching, Matching::Like(p) if p == "%7%"));
}

#[test]
fn the_remainder_keeps_the_sign_of_the_random_number() {
    assert_eq!(random_ip_id(17, 5), 2);
    assert_eq!(random_ip_id(-17, 5), -2);
    assert_eq!(random_ip_id(17, -5), 2);
    assert_eq!(random_ip_id(i32::MIN, -1), 0);
    assert_eq!(random_ip_id(i32::MIN, 7), i32::MIN % 7);
    assert_eq!(random_ip_id(i32::MAX, i32::MIN), i32::MAX);
    assert_eq!(random_ip_id(0, 3), 0);
}

#[test]
fn a_drawn_id_is_smaller_than_the_count() {
    assert_eq!(draw_ip_id(0), None);
    for _ in 0..200 {
        let id = draw_ip_id(10).unwrap();
        assert!(-10 < id && id < 10);
    }
    assert_eq!(draw_ip_id(1), Some(0));
}

#[test]
fn a_random_address_is_named_with_a_sixteen_bit_port() {
    let row = IpModel { id: 1, ip: "h".to_string(), port: 65536 + 80, last_scanned: None };
    assert_eq!(get_random_ip(&row), "h:80");
    let row = IpModel { id: 1, ip: "h".to_string(), port: 25565, last_scanned: Some(1) };
    assert_eq!(get_random_ip(&row), "h:25565");
}

#[test]
fn the_first_names_are_cut_at_the_amount() {
    assert_eq!(first_names(&rows(5), 2), vec!["h0:100", "h1:101"]);
    assert_eq!(first_names(&rows(2), 9), vec!["h0:100", "h1:101"]);
    assert!(first_names(&rows(3), 0).is_empty());
    assert!(first_names(&rows(0), 3).is_empty());
}

#[test]
fn some_addresses_are_a_shuffled_selection() {
    let all: Vec<String> = first_names(&rows(50), 50);
    let mut moved = false;
    for _ in 0..20 {
        let picked = get_some_ips(rows(50), 10);
        assert_eq!(picked.len(), 10);
        for name in &picked {
            assert!(all.contains(name));
        }
        let mut unique = picked.clone();
        unique.sort();
        unique.dedup();
        assert_eq!(unique.len(), 10);
        if picked != all[..10].to_vec() {
            moved = true;
        }
    }
    assert!(moved);
    let mut whole = get_some_ips(rows(6), 100);
    whole.sort();
    assert_eq!(whole, first_names(&rows(6), 6));
}

#[test]
fn colour_sequences_are_stripped() {
    assert_eq!(strip_ansi("\x1b[31mred\x1b[0m plain"), "red plain");
    assert_eq!(strip_ansi("nothing to strip"), "nothing to strip");
    assert_eq!(strip_ansi("\x1b[1;32mok"), "ok");
    assert_eq!(strip_ansi("a\x1b[mb\x1b[mc"), "abc");
    assert_eq!(strip_ansi(""), "");
}

#[test]
fn icons_are_decoded_from_padded_base64() {
    assert_eq!(decode_favicon("aGVsbG8gd29ybGR+Cg==".to_string()), b"hello world~\n".to_vec());
    assert_eq!(
        decode_favicon("data:image/png;base64,aGVsbG8=".to_string()),
        b"hello".to_vec()
    );
    assert_eq!(decode_favicon("aGVsbG8".to_string()), Vec::<u8>::new());
    assert_eq!(decode_favicon("not base64!".to_string()), Vec::<u8>::new());
    assert_eq!(decode_favicon("".to_string()), Vec::<u8>::new());
    assert_eq!(
        decode_favicon("data:image/png;base64,aGVsdata:image/png;base64,bG8=".to_string()),
        b"hello".to_vec()
    );
}

#[test]
fn pictures_are_encoded_with_padding() {
    assert_eq!(image_field(&b"hello".to_vec()), "aGVsbG8=");
    assert_eq!(image_field(&b"hello world~".to_vec()), "aGVsbG8gd29ybGR+");
    assert_eq!(image_field(&Vec::new()), "");
    assert_eq!(decode_favicon(image_field(&vec![0, 255, 7, 9])), vec![0, 255, 7, 9]);
}

#[test]
fn the_picture_address_loses_its_quotes() {
    assert_eq!(image_url(Some("\"https://i.imgur.com/abc.png\"")), "https://i.imgur.com/abc.png");
    assert_eq!(image_url(Some("plain")), "plain");
    assert_eq!(image_url(None), DEFAULT_IMAGE);
    assert_eq!(DEFAULT_IMAGE, "https://i.imgur.com/n4BlJtE.png");
}

#[test]
fn notifications_go_to_the_channel_of_their_level() {
    let notice = wh_send(WHLog::Voyager, "Starting reping", Some("Voyager"));
    assert_eq!(notice.url_key, "VOYAGER_WEBHOOK_URL");
    assert_eq!(notice.username, "Voyager");
    assert_eq!(notice.content, "Starting reping");
    let notice = wh_send(WHLog::Error, "boom", None);
    assert_eq!(notice.url_key, "ERROR_WEBHOOK_URL");
    assert_eq!(notice.username, "logger");
    assert_eq!(wh_send(WHLog::Info, "", None).url_key, "INFO_WEBHOOK_URL");
    assert_eq!(WHLog::Info.to_text(), "INFO");
}

#[test]
fn missing_keys_are_listed_in_order() {
    let keys = env_keys();
    assert_eq!(keys.len(), 12);
    assert_eq!(keys[0], "API_KEY");
    assert_eq!(keys[11], "WEBSERVER_PORT");
    assert!(check_env(&vec![true; 12]).is_empty());
    let mut set = vec![true; 12];
    set[2] = false;
    set[7] = false;
    assert_eq!(check_env(&set), vec!["DATABASE_URL", "LOG_LEVEL"]);
    assert_eq!(check_env(&vec![false; 12]), keys);
}

#[test]
fn log_levels_are_read_whatever_their_case() {
    assert_eq!(init_logs("trace"), LogLevel::Trace);
    assert_eq!(init_logs("DEBUG"), LogLevel::Debug);
    assert_eq!(init_logs("Info"), LogLevel::Info);
    assert_eq!(init_logs("wArN"), LogLevel::Warn);
    assert_eq!(init_logs("ERROR"), LogLevel::Error);
    assert_eq!(init_logs("verbose"), LogLevel::Info);
    assert_eq!(init_logs(""), LogLevel::Info);
    assert_eq!(init_logs("warn "), LogLevel::Info);
}

#[test]
fn scanner_answers() {
    let ok = success("fine".to_string());
    assert_eq!((ok.status, ok.message.as_str()), (200, "fine"));
    let bad = error("broken".to_string());
    assert_eq!((bad.status, bad.message.as_str()), (400, "broken"));
    let hello = index();
    assert_eq!((hello.status, hello.message.as_str()), (200, "Hello, World!"));
}

#[test]
fn a_single_scan_takes_the_first_host() {
    let plan = single_scan(ScanInput {
        hosts: vec!["a:1".to_string(), "b:2".to_string()],
        timeout: Some(3),
    })
    .ok()
    .unwrap();
    assert_eq!(plan.job.ips, vec!["a:1"]);
    assert_eq!((plan.job.timeout, plan.job.workers), (3, 1));
    assert_eq!((plan.reply.status, plan.reply.message.as_str()), (200, "scanning a:1 with 3s timeout"));
}

#[test]
fn a_single_scan_without_hosts_goes_to_the_local_host() {
    let plan = single_scan(ScanInput { hosts: Vec::new(), timeout: None }).ok().unwrap();
    assert_eq!(plan.job.ips, vec!["127.0.0.1"]);
    assert_eq!(plan.job.timeout, 10);
    assert_eq!(plan.reply.message, "scanning 127.0.0.1 with 10s timeout");
    let plan = single_scan(ScanInput { hosts: Vec::new(), timeout: Some(-5) }).ok().unwrap();
    assert_eq!(plan.reply.message, "scanning 127.0.0.1 with -5s timeout");
    assert_eq!(plan.job.timeout, u64::MAX - 4);
}

#[test]
fn a_multi_scan_takes_every_host() {
    let hosts: Vec<String> = (0..12).map(|i| format!("h{}:1", i)).collect();
    let plan = multi_scan(ScanInput { hosts: hosts.clone(), timeout: None }).ok().unwrap();
    assert_eq!(plan.job.ips, hosts);
    assert_eq!((plan.job.timeout, plan.job.workers), (10, 1));
    assert_eq!((plan.reply.status, plan.reply.message.as_str()), (200, "started scanning 12 hosts"));
}

#[test]
fn a_multi_scan_without_hosts_is_refused() {
    let refusal = multi_scan(ScanInput { hosts: Vec::new(), timeout: Some(1) }).err().unwrap();
    assert_eq!((refusal.status, refusal.message.as_str()), (400, "no targets provided"));
}

#[test]
fn failed_scans_say_why() {
    let r = single_scan_failed("a:1", "task panicked");
    assert_eq!((r.status, r.message.as_str()), (400, "failed to run scan job for a:1: task panicked"));
    let r = multi_scan_failed("cancelled");
    assert_eq!((r.status, r.message.as_str()), (400, "failed to run scan job: cancelled"));
}

#[test]
fn the_server_to_look_up_is_the_one_asked_for_or_a_random_one() {
    assert_eq!(pick_server_id(Some(99), 1234, 10), 99);
    assert_eq!(pick_server_id(None, 1234, 10), 4);
    assert_eq!(pick_server_id(None, 9, 10), 9);
    assert_eq!(pick_server_id(None, u64::MAX, 1), 0);
    assert_eq!(draw_server_id(Some(3), 0), None);
    assert_eq!(draw_server_id(Some(3), 8), Some(3));
    for _ in 0..100 {
        assert!(draw_server_id(None, 6).unwrap() < 6);
    }
    let query = server_query(42);
    assert_eq!((query.column.as_str(), query.value.as_str()), ("id", "42"));
}

#[test]
fn a_lookup_answers_with_what_was_found() {
    let found = lookup_response(Some(Vec::new()));
    assert_eq!((found.status, found.message.as_str()), (200, "success"));
    let data = found.data.unwrap();
    assert!(data.results.unwrap().is_empty());
    assert!(data.stats.is_none());
    let failed = lookup_response(None);
    assert_eq!((failed.status, failed.message.as_str()), (400, "Internal server error"));
    assert!(failed.data.is_none());
}
