use httpsys::address::{is_valid_url, reroute, ServerExe};
use httpsys::bench::{
    prefix_url, shutdown_path, url_acl_hint, Engine, ServeOptions, BENCH_PATH,
};
use httpsys::cpu::{cpu_between, filetime_ns, CpuSnapshot};
use httpsys::demo::{
    demo_reply, demo_urls, generate_random_payload, init_failure, kill_bind_failure,
    payload_sizes, random_port, test_bind_failure,
};
use httpsys::error::Error;
use httpsys::latency::{measure_latency, LatencyMeasurement, LatencyRun, Turn};
use httpsys::load::{probe_outcome, Connection, LoadResult, LoadSpec, WaitStep, Waiting};
use httpsys::plot::{format_size, group_lines, plot_bounds, stands_before, Measurement};
use httpsys::report::{
    chart_plans, color_of, comparisons, csv, engine_line, machine_summary, no_points, verdict_line, Colour,
    CsvRow, Metric, SampleText, Sweep, Topic, Unit,
};
use httpsys::server::ServerConfig;
use httpsys::sweep::{
    best, engines, payload, rank_of, series_for, Point, Seen, StopStep, Stopping, SweepOptions,
};
use httpsys::units::{parse_bytes, parse_seconds, split_bytes, Seconds};
use reqwest::Url;
use std::cell::Cell;
use std::time::{Duration, Instant};

// --- latency ---------------------------------------------------------------

fn mean_stddev(samples: &[Duration]) -> (f64, f64) {
    let n = samples.len() as f64;
    let mean = samples.iter().map(|d| d.as_secs_f64()).sum::<f64>() / n;
    let variance = samples
        .iter()
        .map(|d| (d.as_secs_f64() - mean) * (d.as_secs_f64() - mean))
        .sum::<f64>()
        / n;
    (mean, variance.sqrt())
}

fn retain(samples: &Vec<Duration>) -> Vec<Duration> {
    let (mean, std_dev) = mean_stddev(samples);
    samples
        .iter()
        .copied()
        .filter(|d| std_dev <= 0.0 || (d.as_secs_f64() - mean).abs() / std_dev <= 2.0)
        .collect()
}

fn stable(samples: &Vec<Duration>) -> bool {
    let (mean, _) = mean_stddev(samples);
    mean > 0.0
        && samples
            .iter()
            .all(|d| (d.as_secs_f64() - mean).abs() / mean <= 0.10)
}

fn mean(samples: &Vec<Duration>) -> Duration {
    Duration::from_secs_f64(mean_stddev(samples).0)
}

fn measured<F: Fn()>(f: F) -> LatencyMeasurement {
    measure_latency(f, retain, stable, mean)
}

/// How many calls a run takes if the clock always shows the same, and the mean.
fn calls_with(reading: Duration) -> (u32, Duration) {
    let mut run = LatencyRun::new();
    let mut calls = 0;
    loop {
        match run.next() {
            Turn::WarmUp => run.warm(),
            Turn::Timed => {
                let over = run.record(reading, &retain, &stable);
                assert_eq!(over, run.next() == Turn::Done);
            }
            Turn::Done => return (calls, mean(&run.samples)),
        }
        calls += 1;
    }
}

#[test]
fn given_readings_give_the_number_of_calls() {
    let second = Duration::from_secs(1);
    assert_eq!(calls_with(second), (16, second));
    assert_eq!(calls_with(Duration::ZERO), (205, Duration::ZERO));
}

#[test]
fn outliers_are_dropped_from_the_eleventh_time_on() {
    let keep_first = |samples: &Vec<Duration>| vec![samples[0]];
    let never = |_: &Vec<Duration>| true;
    let mut run = LatencyRun::new();
    for i in 0..5 {
        assert_eq!((run.warmed, run.next()), (i, Turn::WarmUp));
        run.warm();
    }
    for i in 0..10 {
        assert_eq!((run.timed, run.next()), (i, Turn::Timed));
        assert!(!run.record(Duration::from_secs(i as u64), &keep_first, &never));
        assert_eq!(run.samples.len(), i + 1);
    }
    assert!(!run.record(Duration::from_secs(99), &keep_first, &never));
    assert_eq!(run.samples, vec![Duration::ZERO]);
}

#[test]
fn measure_latency_runs_warmup_plus_min_iterations() {
    let calls = Cell::new(0u32);
    let m = measured(|| {
        calls.set(calls.get() + 1);
    });
    // At least 5 warmup + MIN_ITERATIONS (10) = 15 invocations.
    assert!(
        calls.get() >= 15,
        "expected >=15 calls, got {}",
        calls.get()
    );
    assert!(m.latency >= Duration::from_nanos(0));
}

#[test]
fn measure_latency_stops_when_stable() {
    // A constant-time workload should converge well before MAX_ITERATIONS.
    let calls = Cell::new(0u32);
    let _ = measured(|| {
        calls.set(calls.get() + 1);
        std::hint::black_box(0u64.wrapping_add(1));
    });
    // 5 warmup + at most 200 measurement iterations.
    assert!(calls.get() <= 5 + 200);
}

#[test]
fn measuring_ends_as_told() {
    let keep = |samples: &Vec<Duration>| samples.clone();
    let first = |_: &Vec<Duration>| Duration::from_secs(7);
    let calls = Cell::new(0u32);
    let m = measure_latency(
        || calls.set(calls.get() + 1),
        keep,
        |samples: &Vec<Duration>| samples.len() >= 11,
        first,
    );
    assert_eq!(calls.get(), 5 + 11);
    assert_eq!(m.latency, Duration::from_secs(7));
    let calls = Cell::new(0u32);
    let _ = measure_latency(
        || calls.set(calls.get() + 1),
        keep,
        |_: &Vec<Duration>| false,
        first,
    );
    assert_eq!(calls.get(), 5 + 200);
    // With every sample dropped there is never enough to be stable.
    let calls = Cell::new(0u32);
    let _ = measure_latency(
        || calls.set(calls.get() + 1),
        |_: &Vec<Duration>| Vec::new(),
        |_: &Vec<Duration>| true,
        first,
    );
    assert_eq!(calls.get(), 5 + 200);
    let slept = measure_latency(
        || {
            let start = Instant::now();
            while start.elapsed() < Duration::from_millis(2) {}
        },
        keep,
        |_: &Vec<Duration>| true,
        |samples: &Vec<Duration>| samples[0],
    );
    assert!(slept.latency >= Duration::from_millis(2));
}

// --- addresses -------------------------------------------------------------

#[test]
fn server_exe_format_req_url_sets_port_and_path() {
    let s = ServerExe { port: 4242 };
    let text = s.format_req_url("/abc/").unwrap();
    let url = Url::parse(&text).unwrap();
    assert_eq!(url.scheme(), "http");
    assert_eq!(url.host_str(), Some("localhost"));
    assert_eq!(url.port(), Some(4242));
    assert_eq!(url.path(), "/abc/");
    assert_eq!(text, "http://localhost:4242/abc/");
}

#[test]
fn urls_are_checked_and_written_out() {
    assert_eq!(
        is_valid_url("HTTP://LocalHost:8080"),
        Ok("http://localhost:8080/".to_owned())
    );
    assert_eq!(
        is_valid_url("::::not a url::::"),
        Err("relative URL without a base".to_owned())
    );
    assert_eq!(reroute("not a url", "/x"), None);
    let long = "x".repeat(0x100_0000);
    assert_eq!(
        reroute("http://a/", &long).map(|url| url.len()),
        Some(9 + 0x100_0000)
    );
    assert_eq!(
        reroute("http://a/old?q#f", "x\t\u{e9}{?#}\\y"),
        Some("http://a/x%C3%A9%7B%3F%23%7D/y?q#f".to_owned())
    );
    assert_eq!(reroute("data:old", "/x"), Some("data:%2Fx".to_owned()));
    assert_eq!(
        ServerExe { port: 80 }.format_req_url("/x y"),
        Some("http://localhost/x%20y".to_owned())
    );
    let urls = demo_urls("http://localhost:8080").unwrap();
    assert_eq!(urls.test, "http://localhost:8080/test");
    assert_eq!(urls.kill, "http://localhost:8080/kill");
    assert!(demo_urls("nowhere").is_none());
    assert_eq!(
        ServerExe { port: 3333 }.args(),
        vec!["server".to_owned(), "http://localhost:3333/".to_owned()]
    );
}

// --- demo ------------------------------------------------------------------

#[test]
fn generate_random_payload_size_matches() {
    let p = generate_random_payload(1234);
    assert_eq!(p.len(), 1234);
    assert!(p.chars().all(|c| c.is_ascii_alphanumeric()));
    assert_ne!(p, generate_random_payload(1234));
}

#[test]
fn random_ports_stay_in_range() {
    for _ in 0..1000 {
        let port = random_port();
        assert!((3333..9999).contains(&port));
    }
}

#[test]
fn the_demo_says_what_went_wrong() {
    assert_eq!(init_failure("x"), "Failed to initialize HTTP server: x");
    assert_eq!(
        test_bind_failure("http://a/test", "http://a/", "denied"),
        "Failed to bind URL http://a/test (try running elevated, or register a URL ACL with \
         `netsh http add urlacl url=http://a/test/ user=Everyone`): denied"
    );
    assert_eq!(
        kill_bind_failure("http://a/kill", "denied"),
        "Failed to bind http://a/kill: denied"
    );
    let reply = demo_reply();
    assert_eq!(&reply.body()[..], b"OK");
    assert_eq!(reply.content_type(), Some("text/plain; charset=utf-8"));
}

#[test]
fn payloads_grow_by_a_quarter() {
    let sizes = payload_sizes();
    assert_eq!(&sizes[..4], &[1024, 1280, 1600, 2000]);
    assert!(*sizes.last().unwrap() <= 8 * 1024 * 1024);
    assert!(sizes.last().unwrap() * 5 / 4 > 8 * 1024 * 1024);
}

// --- plots -----------------------------------------------------------------

#[test]
fn format_size_thresholds() {
    assert_eq!(format_size(0), "0b");
    assert_eq!(format_size(512), "512b");
    assert_eq!(format_size(1024), "1.0kb");
    assert_eq!(format_size(1536), "1.5kb");
    assert_eq!(format_size(1024 * 1024), "1.0mb");
    assert_eq!(format_size(8 * 1024 * 1024), "8.0mb");
}

#[test]
fn sizes_read_as_their_floats_do() {
    for size in [
        1023,
        1280,
        1792,
        2304,
        1048575,
        1048576 + 262144,
        (1 << 53) + 1,
        (1 << 53) + 3,
        (1 << 60) - 1,
        u64::MAX,
        u64::MAX - 1024,
        u64::MAX - 1023,
        0xFFFF_FFFF_FFFF_F400,
    ] {
        let expected = if size >= 1024 * 1024 {
            format!("{:.1}mb", size as f64 / (1024.0 * 1024.0))
        } else if size >= 1024 {
            format!("{:.1}kb", size as f64 / 1024.0)
        } else {
            format!("{size}b")
        };
        assert_eq!(format_size(size), expected, "{size}");
    }
}

fn point(name: &str, latency: u64, payload_size: u64) -> Measurement<'_> {
    Measurement {
        name,
        latency,
        payload_size,
    }
}

#[test]
fn plots_leave_a_tenth_of_the_spread() {
    let records = vec![point("a", 100, 7), point("b", 300, 9), point("a", 150, 8)];
    let bounds = plot_bounds(&records);
    assert_eq!((bounds.x_from, bounds.x_to), (1, 9));
    assert_eq!((bounds.y_from, bounds.y_to), (80, 320));
    // No more than there is below.
    let records = vec![point("a", 5, 1), point("a", 1005, 1)];
    let bounds = plot_bounds(&records);
    assert_eq!((bounds.y_from, bounds.y_to), (0, 1010));
}

#[test]
fn lines_are_grouped_by_name() {
    let records = vec![
        point("b", 1, 1),
        point("a", 2, 2),
        point("b", 3, 3),
        point("ab", 4, 4),
        point("a", 5, 5),
    ];
    let lines = group_lines(&records);
    let shown: Vec<(&str, Vec<usize>)> = lines
        .iter()
        .map(|line| (line.name, line.points.clone()))
        .collect();
    assert_eq!(
        shown,
        vec![("a", vec![1, 4]), ("ab", vec![3]), ("b", vec![0, 2])]
    );
    assert!(stands_before("a", "ab") && !stands_before("ab", "a"));
    assert!(!stands_before("a", "a") && stands_before("Z", "a"));
}

// --- units -----------------------------------------------------------------

#[test]
fn byte_sizes_parse_with_and_without_units() {
    assert_eq!(parse_bytes("1024"), Ok(1024));
    assert_eq!(parse_bytes("4k"), Ok(4096));
    assert_eq!(parse_bytes("4KiB"), Ok(4096));
    assert_eq!(parse_bytes("8MiB"), Ok(8 * 1024 * 1024));
    assert_eq!(parse_bytes(" 2 m "), Ok(2 * 1024 * 1024));
    assert!(parse_bytes("banana").is_err());
}

#[test]
fn only_the_end_of_a_unit_counts() {
    assert_eq!(parse_bytes("5kb"), Ok(5));
    assert_eq!(parse_bytes("7B"), Ok(7));
    assert_eq!(parse_bytes("1GiB"), Ok(1 << 30));
    assert_eq!(
        parse_bytes("4x"),
        Err("'4x' is not a byte size".to_owned())
    );
    assert_eq!(parse_bytes(""), Err("'' is not a byte size".to_owned()));
    assert_eq!(split_bytes("3g"), Some((3, 1 << 30)));
    assert_eq!(split_bytes("g"), None);
}

fn seconds(text: &str) -> Result<Duration, String> {
    parse_seconds(text, |digits: &str| match digits.parse::<f64>() {
        Err(_) => Seconds::Unreadable,
        Ok(s) if s.is_finite() && s >= 0.0 => Seconds::Span(Duration::from_secs_f64(s)),
        Ok(_) => Seconds::Invalid,
    })
}

#[test]
fn seconds_parse_with_and_without_the_suffix() {
    assert_eq!(seconds("3"), Ok(Duration::from_secs(3)));
    assert_eq!(seconds("2.5s"), Ok(Duration::from_millis(2500)));
    assert!(seconds("-1").is_err());
    assert!(seconds("soon").is_err());
    assert_eq!(seconds(" 4ss "), Ok(Duration::from_secs(4)));
    assert_eq!(
        seconds("-1"),
        Err("'-1' is not a valid duration".to_owned())
    );
    assert_eq!(
        seconds("soon"),
        Err("'soon' is not a number of seconds".to_owned())
    );
}

// --- CPU time --------------------------------------------------------------

#[test]
fn filetime_ticks_are_hundred_nanoseconds() {
    assert_eq!(
        Duration::from_nanos(filetime_ns(10_000_000, 0)),
        Duration::from_secs(1)
    );
}

#[test]
fn filetime_uses_the_high_word() {
    assert_eq!(
        Duration::from_nanos(filetime_ns(0, 1)),
        Duration::from_nanos(1u64 << 32) * 100
    );
}

#[test]
fn cores_is_cpu_time_over_wall_time() {
    let start = CpuSnapshot {
        at: Instant::now(),
        cpu_ns: 0,
    };
    let end = CpuSnapshot {
        at: start.at + Duration::from_secs(2),
        cpu_ns: 3_000_000_000,
    };
    let wall = end.at.duration_since(start.at).as_secs_f64();
    let cores = cpu_between(start, end) as f64 / 1e9 / wall;
    assert!((cores - 1.5).abs() < 1e-9);
    assert_eq!(cpu_between(end, start), 0);
    let both = CpuSnapshot::taken(start.at, (10, 0), (5, 1));
    assert_eq!(both.cpu_ns, 1500 + (1u128 << 32) * 100);
}

// --- load ------------------------------------------------------------------

fn result_with(latencies_ns: Vec<u64>, elapsed_ns: u128) -> LoadResult {
    LoadResult::merge(&vec![Some(latencies_ns)], elapsed_ns)
}

fn percentile_ms(result: &LoadResult, quantile: f64) -> f64 {
    let index = (result.requests() as f64 * quantile) as usize;
    result.sample_at(index).unwrap_or(0) as f64 / 1e6
}

fn mean_ms(result: &LoadResult) -> f64 {
    if result.requests() == 0 {
        return 0.0;
    }
    (result.total_ns() as f64 / result.requests() as f64) / 1e6
}

fn requests_per_second(result: &LoadResult) -> f64 {
    let seconds = Duration::from_nanos(result.elapsed_ns() as u64).as_secs_f64();
    if seconds <= 0.0 {
        0.0
    } else {
        result.requests() as f64 / seconds
    }
}

#[test]
fn percentiles_index_the_sorted_samples() {
    let r = result_with((1..=100).rev().map(|n| n * 1_000_000).collect(), 1_000_000_000);
    assert!((percentile_ms(&r, 0.5) - 51.0).abs() < 1e-9);
    assert!((percentile_ms(&r, 0.99) - 100.0).abs() < 1e-9);
    // The top quantile must never run off the end of the vector.
    assert!((percentile_ms(&r, 1.0) - 100.0).abs() < 1e-9);
}

#[test]
fn empty_results_report_zero_rather_than_panicking() {
    let r = LoadResult::default();
    assert_eq!(r.requests(), 0);
    assert_eq!(requests_per_second(&r), 0.0);
    assert_eq!(percentile_ms(&r, 0.5), 0.0);
    assert_eq!(mean_ms(&r), 0.0);
}

#[test]
fn throughput_and_mean_are_arithmetic() {
    let r = result_with(vec![1_000_000, 3_000_000], 2_000_000_000);
    assert!((requests_per_second(&r) - 1.0).abs() < 1e-9);
    assert!((mean_ms(&r) - 2.0).abs() < 1e-9);
}

#[test]
fn every_connection_counts() {
    let r = LoadResult::merge(&vec![Some(vec![5, 1]), None, Some(vec![3]), None], 9);
    assert_eq!(r.errors(), 2);
    assert_eq!(r.elapsed_ns(), 9);
    assert_eq!(r.requests(), 3);
    assert_eq!(r.total_ns(), 9);
    let samples: Vec<Option<u64>> = (0..4).map(|i| r.sample_at(i)).collect();
    assert_eq!(samples, vec![Some(1), Some(3), Some(5), Some(5)]);
}

#[test]
fn only_successes_count() {
    let mut connection = Connection::new();
    assert_eq!(connection.answered(200, "200 OK", 7), Ok(()));
    assert_eq!(
        connection.answered(503, "503 Service Unavailable", 9),
        Err("server replied 503 Service Unavailable".to_owned())
    );
    assert!(!connection.sends(true), "a failure ends the connection");
    assert_eq!(connection.finish(), None);
    let mut connection = Connection::new();
    assert!(connection.sends(true) && !connection.sends(false));
    assert_eq!(connection.answered(204, "204 No Content", 8), Ok(()));
    assert_eq!(connection.answered(200, "200 OK", 7), Ok(()));
    assert!(connection.sends(true));
    assert_eq!(connection.finish(), Some(vec![8, 7]));
    assert_eq!(probe_outcome(200, "200 OK"), Ok(()));
    assert_eq!(
        probe_outcome(404, "404 Not Found"),
        Err("readiness probe got 404 Not Found".to_owned())
    );
}

#[test]
fn loads_say_what_to_send() {
    let spec = LoadSpec {
        host: "127.0.0.1".to_owned(),
        port: 8080,
        path: "/bench/".to_owned(),
        body: payload(9),
        connections: 0,
        duration_ns: 5,
    };
    assert_eq!(spec.authority(), "127.0.0.1:8080");
    assert!(spec.posts());
    assert_eq!(spec.connection_count(), 1);
    let probe = spec.probe();
    assert!(!probe.posts());
    assert_eq!((probe.connections, probe.duration_ns), (1, 0));
    assert_eq!(probe.path, "/bench/");
    let longer = spec.lasting(Duration::MAX.as_nanos());
    assert_eq!(longer.duration_ns, Duration::MAX.as_nanos());
    assert_eq!(longer.body, spec.body);
}

#[test]
fn one_answer_is_enough() {
    let spec = LoadSpec {
        host: "127.0.0.1".to_owned(),
        port: 8080,
        path: "/bench/".to_owned(),
        body: payload(0),
        connections: 1,
        duration_ns: 0,
    };
    let mut waiting = Waiting::begin(&spec);
    assert!(matches!(waiting.next(true), WaitStep::Ask));
    match waiting.next(false) {
        WaitStep::GiveUp(text) => assert_eq!(
            text,
            "server on port 8080 did not become ready: no response"
        ),
        _ => panic!("expected to give up"),
    }
    waiting.asked(Err("early".to_owned()));
    waiting.asked(Err("refused".to_owned()));
    match waiting.next(false) {
        WaitStep::GiveUp(text) => {
            assert_eq!(text, "server on port 8080 did not become ready: refused")
        }
        _ => panic!("expected to give up"),
    }
    waiting.asked(Ok(()));
    assert!(matches!(waiting.next(false), WaitStep::Ready));
}

// --- servers under test ----------------------------------------------------

#[test]
fn engine_labels_match_the_cli_values() {
    assert_eq!(Engine::Httpsys.label(), "httpsys");
    assert_eq!(Engine::Axum.label(), "axum");
}

#[test]
fn access_denied_explains_the_url_acl() {
    let hint = url_acl_hint(&Error::Win32(5), 8080, BENCH_PATH, "Access is denied.");
    assert!(
        hint.contains("netsh http add urlacl url=http://+:8080/"),
        "{hint}"
    );
    assert!(hint.contains("Temporary_Listen_Addresses"), "{hint}");
    assert_eq!(
        hint,
        "cannot reserve http://+:8080/bench/ (Win32 error 5: Access is denied.).\n\
         Either run once as administrator:\n    \
         netsh http add urlacl url=http://+:8080/ user=Everyone\n\
         or reuse the reservation every user already has:\n    \
         --port 80 --path /Temporary_Listen_Addresses/bench/"
    );
}

#[test]
fn other_errors_are_passed_through() {
    let hint = url_acl_hint(&Error::Win32(87), 8080, BENCH_PATH, "");
    assert!(!hint.contains("netsh"), "{hint}");
    assert_eq!(hint, "cannot reserve http://+:8080/bench/: Win32 error 87");
}

#[test]
fn shutdown_is_a_sibling_of_the_bench_path() {
    assert_eq!(shutdown_path("/bench/"), "/shutdown/");
    assert_eq!(
        shutdown_path("/Temporary_Listen_Addresses/bench/"),
        "/Temporary_Listen_Addresses/shutdown/"
    );
    assert_eq!(shutdown_path("bench"), "/shutdown/");
    assert_eq!(shutdown_path(""), "/shutdown/");
    assert_eq!(shutdown_path("/a/b//"), "/a/shutdown/");
}

#[test]
fn the_bench_reply_may_be_cached() {
    let plain = ServeOptions {
        request_buffer_bytes: 32768,
        kernel_cache: false,
    };
    assert_eq!(&plain.reply().body()[..], b"OK");
    assert_eq!(plain.reply().cache_seconds(), None);
    let cached = ServeOptions {
        kernel_cache: true,
        ..plain
    };
    assert_eq!(cached.reply().cache_seconds(), Some(60));
    let machine = ServerConfig::for_cores(4);
    let config = plain.config(machine);
    assert_eq!(config.request_buffer_bytes, 32768);
    assert_eq!(config.concurrency, machine.concurrency);
    assert_eq!(prefix_url(80, "/x/"), "http://+:80/x/");
}

// --- sweep -----------------------------------------------------------------

#[test]
fn payload_has_the_requested_length() {
    for size in [0usize, 1, 7, 8, 4096, 4097] {
        assert_eq!(payload(size).len(), size);
    }
}

#[test]
fn payload_is_deterministic() {
    assert_eq!(payload(64), payload(64));
    let mut state = 0x2545_F491_4F6C_DD1Du64;
    let mut expected = Vec::new();
    for _ in 0..8 {
        state ^= state << 13;
        state ^= state >> 7;
        state ^= state << 17;
        expected.extend_from_slice(&state.to_le_bytes());
    }
    assert_eq!(&payload(64)[..], &expected[..]);
    assert_eq!(&payload(13)[..], &expected[..13]);
}

fn sample(engine: Engine, by: f64) -> Point {
    Point {
        engine,
        rank: rank_of(by.to_bits()),
    }
}

#[test]
fn series_are_sorted_and_filtered_by_engine() {
    let samples = vec![
        sample(Engine::Httpsys, 8.0),
        sample(Engine::Axum, 4.0),
        sample(Engine::Httpsys, 2.0),
    ];
    assert_eq!(series_for(&samples, Engine::Httpsys), vec![2, 0]);
    let equals = vec![
        sample(Engine::Axum, 1.0),
        sample(Engine::Axum, 0.5),
        sample(Engine::Axum, 1.0),
    ];
    assert_eq!(series_for(&equals, Engine::Axum), vec![1, 0, 2]);
    assert!(series_for(&equals, Engine::Httpsys).is_empty());
}

#[test]
fn best_picks_the_maximum_per_engine() {
    let samples = vec![
        sample(Engine::Httpsys, 10.0),
        sample(Engine::Httpsys, 90.0),
        sample(Engine::Axum, 50.0),
    ];
    let picked = best(&samples);
    assert_eq!(picked.len(), 2);
    assert_eq!(picked, vec![1, 2]);
    let equals = vec![
        sample(Engine::Axum, 5.0),
        sample(Engine::Axum, 5.0),
        sample(Engine::Axum, 4.0),
    ];
    assert_eq!(best(&equals), vec![1], "the last of equals");
    assert!(best(&Vec::new()).is_empty());
}

#[test]
fn ranks_order_as_floats_do() {
    let numbers = [
        f64::NEG_INFINITY,
        -2.0,
        -1.0,
        -0.0,
        0.0,
        f64::MIN_POSITIVE,
        1.0,
        2.0,
        f64::INFINITY,
    ];
    for a in numbers {
        for b in numbers {
            let ranks = rank_of(a.to_bits()).cmp(&rank_of(b.to_bits()));
            assert_eq!(ranks, a.total_cmp(&b), "{a} {b}");
        }
    }
}

fn options() -> SweepOptions {
    SweepOptions {
        ports: vec![8080],
        path: "/bench/".to_owned(),
        duration_ns: 3,
        warmup_ns: 1,
        connections: vec![1, 2],
        sizes: vec![1024],
        size_sweep_connections: 32,
        concurrency_sweep_bytes: 0,
        kernel_cache: true,
    }
}

#[test]
fn sweeps_say_what_to_run() {
    let mut options = options();
    assert_eq!(engines(), vec![Engine::Httpsys, Engine::Axum]);
    assert_eq!(options.port_for(0), Ok(8080));
    assert_eq!(
        options.port_for(1),
        Err("expected 2 ports, one per engine, got 1".to_owned())
    );
    let spec = options.spec(8080, payload(3), 4);
    assert_eq!(spec.authority(), "127.0.0.1:8080");
    assert_eq!((spec.connections, spec.duration_ns), (4, 3));
    assert_eq!(spec.body.len(), 3);
    assert_eq!(options.warmup_spec(&spec).unwrap().duration_ns, 1);
    options.warmup_ns = 0;
    assert!(options.warmup_spec(&spec).is_none());
    let stop = options.stop_spec(8080);
    assert_eq!(stop.path, "/shutdown/");
    assert_eq!(stop.duration_ns, 0);
    assert!(!options.ready_spec(8080).posts());
    assert_eq!(
        options.serve_args(Engine::Httpsys, 80),
        vec![
            "serve",
            "--engine",
            "httpsys",
            "--port",
            "80",
            "--path",
            "/bench/",
            "--kernel-cache"
        ]
    );
    assert_eq!(options.serve_args(Engine::Axum, 80).len(), 7);
}

#[test]
fn a_server_gets_its_time_to_stop() {
    let mut stopping = Stopping::begin();
    assert_eq!(stopping.left, 40);
    assert_eq!(stopping.looked(Seen::Running), StopStep::Wait);
    assert_eq!(stopping.looked(Seen::Exited), StopStep::Done);
    assert_eq!(stopping.looked(Seen::Failed), StopStep::Kill);
    for _ in 0..37 {
        assert!(stopping.look());
        assert_eq!(stopping.looked(Seen::Running), StopStep::Wait);
    }
    assert!(!stopping.look());
}

// --- report ----------------------------------------------------------------

#[test]
fn charts_cover_both_sweeps() {
    let machine = machine_summary(8, "x86_64");
    assert_eq!(machine, "8 logical cores, loopback, x86_64");
    let plans = chart_plans(&machine);
    let files: Vec<&str> = plans.iter().map(|plan| plan.file).collect();
    assert_eq!(
        files,
        vec![
            "latency-vs-concurrency.svg",
            "cpu-vs-concurrency.svg",
            "throughput-vs-concurrency.svg",
            "latency-vs-size.svg",
            "cpu-vs-size.svg",
            "throughput-vs-size.svg"
        ]
    );
    let latency = &plans[0];
    assert_eq!(
        latency.subtitle,
        "solid = median, dashed = p99. 8 logical cores, loopback, x86_64"
    );
    assert!(latency.y_log && latency.sweep == Sweep::Concurrency);
    let names: Vec<&str> = latency.series.iter().map(|s| s.name.as_str()).collect();
    assert_eq!(names, vec!["httpsys p50", "axum p50", "httpsys p99", "axum p99"]);
    assert!(latency.series[2].dashed && !latency.series[0].dashed);
    let ingest = &plans[5];
    assert_eq!(ingest.subtitle, machine);
    assert_eq!((ingest.x_unit, ingest.y_unit), (Unit::ByteSize, Unit::MibPerSecond));
    assert_eq!(ingest.series[1].name, "axum");
    assert_eq!(ingest.series[1].metric, Metric::MibPerSecond);
    assert_eq!(
        color_of(Engine::Axum),
        Colour {
            red: 214,
            green: 73,
            blue: 55
        }
    );
}

#[test]
fn a_chart_without_points_is_refused() {
    assert_eq!(
        no_points("Latency", 0),
        Some("chart 'Latency' has no data points".to_owned())
    );
    assert_eq!(no_points("Latency", 3), None);
}

fn row(engine: Engine) -> CsvRow {
    CsvRow {
        engine,
        connections: 8,
        body_bytes: 1024,
        requests: 100,
        rps: "50.0".to_owned(),
        mean_ms: "1.0000".to_owned(),
        p50_ms: "0.9000".to_owned(),
        p99_ms: "2.0000".to_owned(),
        cores: "0.5000".to_owned(),
        cpu_us_per_request: "10.00".to_owned(),
    }
}

#[test]
fn the_table_lists_every_sample() {
    let table = csv(&vec![row(Engine::Httpsys)], &vec![row(Engine::Axum)]);
    assert_eq!(
        table,
        "sweep,engine,connections,body_bytes,requests,rps,mean_ms,p50_ms,p99_ms,cpu_cores,cpu_us_per_request\n\
         concurrency,httpsys,8,1024,100,50.0,1.0000,0.9000,2.0000,0.5000,10.00\n\
         size,axum,8,1024,100,50.0,1.0000,0.9000,2.0000,0.5000,10.00\n"
    );
}

#[test]
fn the_summary_compares_four_things() {
    let all = comparisons();
    assert_eq!(all.len(), 4);
    assert_eq!(all[0].title, "Peak throughput (small requests)");
    assert_eq!(all[3].best_by, Metric::BodyBytes);
    let text = SampleText {
        rate: "13k".to_owned(),
        connections: 64,
        mib_per_second: "900".to_owned(),
        body: "8 MiB".to_owned(),
        cpu_us_per_request: "10.5".to_owned(),
        cores: "1.25".to_owned(),
    };
    assert_eq!(text.describe(Topic::Throughput), "13k req/s @ 64 conns");
    assert_eq!(text.describe(Topic::Ingest), "900 MiB/s @ 8 MiB body");
    assert_eq!(text.describe(Topic::CpuPerRequest), "10.5 us/req");
    assert_eq!(
        text.describe(Topic::UploadCost),
        "1.25 cores for 900 MiB/s at 8 MiB body"
    );
    assert_eq!(engine_line(Engine::Axum, "x"), format!("  {:<8} x", "axum"));
    assert_eq!(
        engine_line(Engine::Httpsys, "x"),
        format!("  {:<8} x", "httpsys")
    );
    assert_eq!(
        verdict_line("1.50", true),
        "  -> httpsys is 1.50x faster than axum"
    );
    assert_eq!(
        verdict_line("0.50", false),
        "  -> httpsys is 0.50x slower than axum"
    );
}
