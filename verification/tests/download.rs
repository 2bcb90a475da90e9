use blindspot::download::{Download, POLL_INTERVAL_MS, REDIRECT_LIMIT};
use blindspot::installer::{Archived, Compression};
use blindspot::ui::Message;

fn download() -> Download {
    Download {
        url: "https://host/tool".to_string(),
        compression: Compression::Plain,
        archive: Archived::Plain,
        dir: "/tmp/blindspot".to_string(),
        to: "/tmp/blindspot/tool".to_string(),
    }
}

fn progress(envelope: &(String, Message)) -> (u64, u64, String) {
    match &envelope.1 {
        Message::Progress(p) => p.clone(),
        other => panic!("no progress: {:?}", other),
    }
}

#[test]
fn download_limits() {
    assert_eq!(REDIRECT_LIMIT, 50);
    assert_eq!(POLL_INTERVAL_MS, 20);
}

#[test]
fn poll_reports_thousands_of_bytes() {
    let d = download();
    let (envelope, done) = d.poll("📦 tool", 1_500, 3_999);
    assert_eq!(envelope.0, "📦 tool");
    assert_eq!(progress(&envelope), (1, 3, "https://host/tool".to_string()));
    assert!(!done);
    let (envelope, done) = d.poll("📦 tool", 999, 1_000);
    assert_eq!(progress(&envelope), (0, 1, "https://host/tool".to_string()));
    assert!(!done);
}

#[test]
fn poll_ends_when_all_bytes_are_there() {
    let d = download();
    let (envelope, done) = d.poll("x", 3_999, 3_999);
    assert_eq!(progress(&envelope), (3, 3, "https://host/tool".to_string()));
    assert!(done);
    let (envelope, done) = d.poll("x", 0, 0);
    assert_eq!(progress(&envelope), (0, 0, "https://host/tool".to_string()));
    assert!(done);
    let (_, done) = d.poll("x", u64::MAX, u64::MAX);
    assert!(done);
}

#[test]
fn equal_thousands_do_not_end_the_reports() {
    let d = download();
    let (envelope, done) = d.poll("x", 1_500, 1_999);
    assert_eq!(progress(&envelope), (1, 1, "https://host/tool".to_string()));
    assert!(!done);
}

#[test]
fn reports_never_go_back_and_end_at_completion() {
    let d = download();
    let samples = vec![(0, 5_000), (0, 5_000), (2_500, 5_000), (4_999, 5_000), (5_000, 5_000), (5_000, 5_000)];
    let reports = d.replay("⛽ tool", &samples);
    let seen: Vec<(u64, u64, String)> = reports.iter().map(progress).collect();
    let currents: Vec<u64> = seen.iter().map(|p| p.0).collect();
    assert_eq!(currents, vec![0, 0, 2, 4, 5]);
    for pair in currents.windows(2) {
        assert!(pair[0] <= pair[1]);
    }
    for (i, p) in seen.iter().enumerate() {
        assert_eq!(p.0 == p.1, i == seen.len() - 1);
        assert_eq!(p.1, 5);
        assert_eq!(p.2, "https://host/tool");
    }
    for r in &reports {
        assert_eq!(r.0, "⛽ tool");
    }
}

#[test]
fn replay_of_an_unfinished_transfer_reports_every_sample() {
    let d = download();
    let reports = d.replay("x", &vec![(0, 9_000), (1_000, 9_000), (8_000, 9_000)]);
    assert_eq!(reports.len(), 3);
    assert_eq!(progress(&reports[2]), (8, 9, "https://host/tool".to_string()));
    assert_eq!(d.replay("x", &vec![]).len(), 0);
    assert_eq!(d.replay("x", &vec![(7, 7), (8, 9)]).len(), 1);
}

#[test]
fn replay_agrees_with_polling() {
    let d = download();
    let samples = vec![(10, 30_000), (20_000, 30_000), (30_000, 30_000)];
    let reports = d.replay("x", &samples);
    let mut polled = Vec::new();
    for (transferred, total) in &samples {
        let (envelope, done) = d.poll("x", *transferred, *total);
        polled.push(progress(&envelope));
        if done {
            break;
        }
    }
    let replayed: Vec<(u64, u64, String)> = reports.iter().map(progress).collect();
    assert_eq!(replayed, polled);
}
