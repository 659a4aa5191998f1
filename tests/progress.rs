use pegasus::event::describe_progress;
use pegasus::progress::parse_progress_line;

#[test]
fn parse_full_progress_line() {
    let p = parse_progress_line("[download]  42.5% of 10MiB ETA 00:05 at 1.2MiB/s").unwrap();
    assert_eq!(p.progress, 4250);
    assert_eq!(p.eta.as_deref(), Some("00:05"));
    assert_eq!(p.speed.as_deref(), Some("1.2MiB/s"));
}

#[test]
fn parse_line_without_progress_marker() {
    assert!(parse_progress_line("[ExtractAudio] Destination: foo.mp3").is_none());
    assert!(parse_progress_line("").is_none());
    assert!(parse_progress_line("42.5% done").is_none());
}

#[test]
fn parse_progress_without_eta_or_speed() {
    let p = parse_progress_line("[download] 100% of 3.50MiB").unwrap();
    assert_eq!(p.progress, 10000);
    assert!(p.eta.is_none());
    assert!(p.speed.is_none());
}

#[test]
fn parse_requires_white_space_after_marker() {
    assert!(parse_progress_line("[download]42.5%").is_none());
}

#[test]
fn parse_rejects_malformed_number() {
    assert!(parse_progress_line("[download] 1.2.3% of 10MiB").is_none());
    assert!(parse_progress_line("[download] .% of 10MiB").is_none());
}

#[test]
fn parse_keeps_two_decimals() {
    assert_eq!(parse_progress_line("[download]   7.89% of 1GiB").unwrap().progress, 789);
    assert_eq!(parse_progress_line("[download] .5% of 1GiB").unwrap().progress, 50);
    assert_eq!(parse_progress_line("[download] 3.% of 1GiB").unwrap().progress, 300);
}

#[test]
fn parse_finds_later_marker() {
    let p = parse_progress_line("note [download] x [download] 12% ETA 1:02:03 at 999KiB/s").unwrap();
    assert_eq!(p.progress, 1200);
    assert_eq!(p.eta.as_deref(), Some("1:02:03"));
    assert_eq!(p.speed.as_deref(), Some("999KiB/s"));
}

#[test]
fn parse_speed_without_unit_prefix() {
    let p = parse_progress_line("[download] 1.0% at 512iB/s").unwrap();
    assert_eq!(p.speed.as_deref(), Some("512iB/s"));
}

#[test]
fn progress_message_text() {
    let p = parse_progress_line("[download]  42.5% of 10MiB ETA 00:05 at 1.2MiB/s").unwrap();
    assert_eq!(describe_progress(&p), "Progress: 42.5%, ETA: 00:05, Speed: 1.2MiB/s");
    let q = parse_progress_line("[download] 100% of 3.50MiB").unwrap();
    assert_eq!(describe_progress(&q), "Progress: 100.0%, ETA: N/A, Speed: N/A");
}

#[test]
fn parse_caps_readings_above_100_percent() {
    assert_eq!(parse_progress_line("[download] 150% of 1MiB").unwrap().progress, 10000);
    let huge = format!("[download] {}% of 1MiB", "9".repeat(40));
    assert_eq!(parse_progress_line(&huge).unwrap().progress, 10000);
}

#[test]
fn progress_message_rounds_to_one_decimal() {
    let p = parse_progress_line("[download]   7.89% of 1GiB").unwrap();
    assert_eq!(describe_progress(&p), "Progress: 7.9%, ETA: N/A, Speed: N/A");
    let q = parse_progress_line("[download]   7.84% of 1GiB").unwrap();
    assert_eq!(describe_progress(&q), "Progress: 7.8%, ETA: N/A, Speed: N/A");
    let r = parse_progress_line("[download]  99.96% of 1GiB").unwrap();
    assert_eq!(describe_progress(&r), "Progress: 100.0%, ETA: N/A, Speed: N/A");
}
