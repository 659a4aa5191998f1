use pegasus::error::PegasusError;
use pegasus::event::{ProgressEvent, Stage};
use pegasus::job::{build_worker_args, Action, Job, JobState, Step};

fn options(list: &[&str]) -> Vec<String> {
    list.iter().map(|s| s.to_string()).collect()
}

fn only_event(step: &Step) -> &ProgressEvent {
    assert_eq!(step.events.len(), 1);
    &step.events[0]
}

fn started(opts: &[&str]) -> Job {
    let (mut job, _) = Job::submit("job-1", "https://example.com/v", &None, &options(opts));
    job.directory_ready();
    job
}

fn downloading(opts: &[&str]) -> Job {
    let mut job = started(opts);
    job.info_output(true, "{\"title\": \"My: Video\"}", "");
    assert_eq!(job.state(), JobState::Launching);
    job.worker_started();
    assert_eq!(job.state(), JobState::Downloading);
    job
}

#[test]
fn submit_publishes_starting_and_asks_for_directory() {
    let (job, step) = Job::submit("job-1", "https://example.com/v", &None, &options(&[]));
    assert_eq!(job.state(), JobState::Starting);
    assert_eq!(job.id(), "job-1");
    let e = only_event(&step);
    assert_eq!(e.stage, Stage::Starting);
    assert_eq!(e.progress, 0);
    assert_eq!(e.message, "Preparing download...");
    assert_eq!(e.job_id, "job-1");
    assert_eq!(e.url, "https://example.com/v");
    match &step.action {
        Action::CreateDirectory(d) => assert_eq!(d, "/tmp/pegasus_downloads/default"),
        other => panic!("unexpected action {:?}", other),
    }
}

#[test]
fn submit_uses_requested_directory() {
    let (_, step) = Job::submit("j", "u", &Some("music".to_string()), &options(&[]));
    assert!(matches!(&step.action, Action::CreateDirectory(d) if d == "/tmp/pegasus_downloads/music"));
    let (_, step) = Job::submit("j", "u", &Some("/srv/media".to_string()), &options(&[]));
    assert!(matches!(&step.action, Action::CreateDirectory(d) if d == "/srv/media"));
}

#[test]
fn directory_ready_queries_metadata() {
    let (mut job, _) = Job::submit("job-1", "https://example.com/v", &None, &options(&[]));
    let step = job.directory_ready();
    assert_eq!(job.state(), JobState::FetchingInfo);
    let e = only_event(&step);
    assert_eq!(e.stage, Stage::Info);
    assert_eq!(e.progress, 1000);
    assert_eq!(e.message, "Fetching video information...");
    match &step.action {
        Action::QueryInfo(args) => assert_eq!(args, &options(&["--dump-json", "https://example.com/v"])),
        other => panic!("unexpected action {:?}", other),
    }
}

#[test]
fn directory_failure_fails_the_job() {
    let (mut job, _) = Job::submit("job-1", "u", &None, &options(&[]));
    let step = job.directory_failed("permission denied");
    assert_eq!(job.state(), JobState::Failed);
    let e = only_event(&step);
    assert_eq!(e.stage, Stage::Failed);
    assert_eq!(e.progress, 0);
    assert_eq!(e.message, "Download failed: I/O error: permission denied");
    assert!(matches!(&step.action, Action::Finished(Err(PegasusError::IoError(m))) if m == "permission denied"));
}

#[test]
fn metadata_starts_video_download() {
    let mut job = started(&[]);
    let step = job.info_output(true, "{\"title\": \"My: Video\", \"id\": 7}", "");
    assert_eq!(job.state(), JobState::Launching);
    assert_eq!(step.events.len(), 1);
    assert_eq!(step.events[0].stage, Stage::Info);
    assert_eq!(step.events[0].progress, 2000);
    assert_eq!(step.events[0].message, "Found video: My: Video");
    let path = "/tmp/pegasus_downloads/default/My_ Video.mp4";
    assert_eq!(job.output_path(), path);
    let expected = options(&[
        "-f",
        "bestvideo[ext=mp4]+bestaudio[ext=m4a]/best[ext=mp4]/best",
        "--merge-output-format",
        "mp4",
        "--newline",
        "--progress",
        "--output",
        path,
        "https://example.com/v",
    ]);
    match &step.action {
        Action::LaunchWorker(args) => assert_eq!(args, &expected),
        other => panic!("unexpected action {:?}", other),
    }
    let step = job.worker_started();
    assert_eq!(job.state(), JobState::Downloading);
    let e = only_event(&step);
    assert_eq!(e.stage, Stage::Downloading);
    assert_eq!(e.progress, 0);
    assert_eq!(e.message, "Starting video download...");
    assert!(matches!(step.action, Action::Continue));
}

#[test]
fn failed_spawn_publishes_no_start_marker() {
    let mut job = started(&[]);
    job.info_output(true, "{\"title\": \"T\"}", "");
    let step = job.worker_launch_failed("not found");
    let e = only_event(&step);
    assert_eq!(e.stage, Stage::Failed);
    assert!(job.worker_started().events.is_empty());
}

#[test]
fn audio_only_with_thumbnail_arguments() {
    let mut job = started(&["audio-only", "add-thumbnail"]);
    let step = job.info_output(true, "{\"title\": \"Song\"}", "");
    assert_eq!(step.events[0].message, "Found video: Song");
    let path = "/tmp/pegasus_downloads/default/Song.mp3";
    let expected = options(&[
        "--extract-audio",
        "--audio-format",
        "mp3",
        "--audio-quality",
        "0",
        "--embed-metadata",
        "--newline",
        "--progress",
        "--embed-thumbnail",
        "--output",
        path,
        "https://example.com/v",
    ]);
    match &step.action {
        Action::LaunchWorker(args) => assert_eq!(args, &expected),
        other => panic!("unexpected action {:?}", other),
    }
    assert_eq!(build_worker_args(true, true, path, "https://example.com/v"), expected);
    assert_eq!(only_event(&job.worker_started()).message, "Starting audio download...");
}

#[test]
fn metadata_without_title_uses_unknown_title() {
    let mut job = started(&[]);
    let step = job.info_output(true, "{\"duration\": 12}", "");
    assert_eq!(step.events[0].message, "Found video: unknown_title");
    assert_eq!(job.output_path(), "/tmp/pegasus_downloads/default/unknown_title.mp4");
}

#[test]
fn unreadable_metadata_fails_the_job() {
    let mut job = started(&[]);
    let step = job.info_output(true, "not json", "");
    assert_eq!(job.state(), JobState::Failed);
    let e = only_event(&step);
    assert!(e.message.starts_with("Download failed: External command error: Failed to parse yt-dlp JSON output: "));
    assert!(e.message.len() > "Download failed: External command error: Failed to parse yt-dlp JSON output: ".len());
}

#[test]
fn failed_metadata_query_fails_the_job() {
    let mut job = started(&[]);
    let step = job.info_output(false, "", "ERROR: Unsupported URL");
    let e = only_event(&step);
    assert_eq!(e.message, "Download failed: External command error: yt-dlp command failed: ERROR: Unsupported URL");
    let mut other = started(&[]);
    let step = other.info_launch_failed("No such file or directory");
    assert_eq!(only_event(&step).message, "Download failed: External command error: Failed to execute yt-dlp command: No such file or directory");
}

#[test]
fn parsed_metadata_outcomes() {
    let mut job = started(&[]);
    let step = job.info_parsed(Ok(Some("A/B".to_string())));
    assert_eq!(step.events[0].message, "Found video: A/B");
    assert_eq!(job.output_path(), "/tmp/pegasus_downloads/default/A_B.mp4");
    let mut job = started(&[]);
    let step = job.info_parsed(Err("EOF while parsing".to_string()));
    assert_eq!(only_event(&step).message, "Download failed: External command error: Failed to parse yt-dlp JSON output: EOF while parsing");
}

#[test]
fn worker_output_lines() {
    let mut job = downloading(&[]);
    let step = job.stdout_line("[download]  42.5% of 10MiB ETA 00:05 at 1.2MiB/s");
    let e = only_event(&step);
    assert_eq!(e.stage, Stage::Downloading);
    assert_eq!(e.progress, 4250);
    assert_eq!(e.message, "Progress: 42.5%, ETA: 00:05, Speed: 1.2MiB/s");
    assert!(matches!(step.action, Action::Continue));
    assert!(job.stdout_line("[ExtractAudio] Destination: foo.mp3").events.is_empty());
    let step = job.stderr_line("ERROR: unable to download");
    let e = only_event(&step);
    assert_eq!(e.stage, Stage::Warning);
    assert_eq!(e.progress, 0);
    assert_eq!(e.message, "ERROR: unable to download");
    assert!(job.stderr_line("WARNING: slow").events.is_empty());
}

#[test]
fn successful_exit_completes_the_job() {
    let mut job = downloading(&[]);
    let step = job.worker_exited(true, "exit status: 0");
    assert_eq!(job.state(), JobState::Completed);
    let e = only_event(&step);
    assert_eq!(e.stage, Stage::Completed);
    assert_eq!(e.progress, 10000);
    assert_eq!(e.message, "Download completed successfully: /tmp/pegasus_downloads/default/My_ Video.mp4");
    match &step.action {
        Action::Finished(Ok(p)) => assert_eq!(p, "/tmp/pegasus_downloads/default/My_ Video.mp4"),
        other => panic!("unexpected action {:?}", other),
    }
}

#[test]
fn failed_exit_and_wait_failure_fail_the_job() {
    let mut job = downloading(&[]);
    let step = job.worker_exited(false, "exit status: 1");
    assert_eq!(only_event(&step).message, "Download failed: External command error: yt-dlp command failed with status: exit status: 1");
    let mut job = downloading(&[]);
    let step = job.wait_failed("interrupted");
    assert_eq!(only_event(&step).message, "Download failed: External command error: Failed to wait for yt-dlp command: interrupted");
    let mut job = started(&[]);
    job.info_output(true, "{}", "");
    let step = job.worker_launch_failed("not found");
    assert_eq!(only_event(&step).message, "Download failed: External command error: Failed to execute yt-dlp command: not found");
}

#[test]
fn finished_job_publishes_nothing_more() {
    let mut job = downloading(&[]);
    job.worker_exited(true, "exit status: 0");
    for step in [
        job.stdout_line("[download] 50% of 1MiB"),
        job.stderr_line("ERROR: late"),
        job.worker_exited(false, "exit status: 1"),
        job.wait_failed("x"),
        job.directory_ready(),
        job.info_output(true, "{}", ""),
    ] {
        assert!(step.events.is_empty());
        assert!(matches!(step.action, Action::Continue));
    }
    assert_eq!(job.state(), JobState::Completed);
}

#[test]
fn input_out_of_order_is_ignored() {
    let (mut job, _) = Job::submit("j", "u", &None, &options(&[]));
    let step = job.stdout_line("[download] 50% of 1MiB");
    assert!(step.events.is_empty());
    let step = job.worker_exited(true, "exit status: 0");
    assert!(step.events.is_empty());
    assert_eq!(job.state(), JobState::Starting);
}

fn run_all(job: &mut Job, first: Step) -> Vec<ProgressEvent> {
    let mut all = first.events;
    all.extend(job.directory_ready().events);
    all.extend(job.info_output(true, "{\"title\": \"T\"}", "").events);
    all.extend(job.worker_started().events);
    all.extend(job.stdout_line("[download]   0.0% of 1MiB").events);
    all.extend(job.stderr_line("ERROR: hiccup").events);
    all.extend(job.stdout_line("[download]  55.0% of 1MiB").events);
    all.extend(job.stderr_line("ERROR: hiccup again").events);
    all.extend(job.stdout_line("[download] 100% of 1MiB").events);
    all.extend(job.worker_exited(true, "exit status: 0").events);
    all.extend(job.worker_exited(false, "exit status: 1").events);
    all.extend(job.wait_failed("late").events);
    all.extend(job.stdout_line("[download] 10% of 1MiB").events);
    all
}

#[test]
fn one_terminal_event_and_it_is_last() {
    let (mut job, first) = Job::submit("job-9", "u", &None, &options(&[]));
    let all = run_all(&mut job, first);
    let terminal: Vec<usize> = (0..all.len())
        .filter(|&i| matches!(all[i].stage, Stage::Completed | Stage::Failed))
        .collect();
    assert_eq!(terminal, vec![all.len() - 1]);
    assert!(all.iter().all(|e| e.job_id == "job-9"));
}

#[test]
fn progress_within_a_stage_never_decreases() {
    let (mut job, first) = Job::submit("job-9", "u", &None, &options(&[]));
    let all = run_all(&mut job, first);
    let progress: Vec<(Stage, u64)> = all.iter().map(|e| (e.stage, e.progress)).collect();
    assert_eq!(
        progress,
        vec![
            (Stage::Starting, 0),
            (Stage::Info, 1000),
            (Stage::Info, 2000),
            (Stage::Downloading, 0),
            (Stage::Downloading, 0),
            (Stage::Warning, 0),
            (Stage::Downloading, 5500),
            (Stage::Warning, 0),
            (Stage::Downloading, 10000),
            (Stage::Completed, 10000),
        ]
    );
    for i in 0..all.len() {
        for j in i + 1..all.len() {
            if all[i].stage == all[j].stage && all[i].stage != Stage::Downloading {
                assert!(all[i].progress <= all[j].progress);
            }
        }
    }
}

#[test]
fn download_progress_never_falls_below_last_published() {
    let mut job = downloading(&[]);
    let e = job.stdout_line("[download]  50.0% of 2MiB").events;
    assert_eq!(e[0].progress, 5000);
    let step = job.stdout_line("[download]  20.0% of 1MiB");
    let e = only_event(&step);
    assert_eq!(e.progress, 5000);
    assert_eq!(e.message, "Progress: 20.0%, ETA: N/A, Speed: N/A");
    let e = job.stdout_line("[download]  75.5% of 1MiB").events;
    assert_eq!(e[0].progress, 7550);
}
