use vstd::prelude::*;
use crate::error::{error_text, PegasusError};
use crate::event::{describe_progress, progress_message, EventView, ProgressEvent, Stage};
use crate::filename::{sanitize_filename, sanitized};
use crate::metadata::{
    json_accepts, json_error_text, json_title, metadata_error_detail, title_from_metadata,
    title_from_parsed, title_or_unknown,
};
use crate::paths::{join, join_path, target_directory, target_directory_of};
use crate::progress::{
    captured, chars_of, has_at, is_number, literal_at, opt_view, parse_progress_line,
    percent_hundredths, saturate, Field, FULL_PROGRESS,
};

verus! {

/// Where a job stands.
#[derive(Clone, Copy, PartialEq, Eq, Structural, Debug)]
pub enum JobState {
    Starting,
    FetchingInfo,
    /// The worker has been asked for but is not known to run yet.
    Launching,
    Downloading,
    Completed,
    Failed,
}

/// What the runner of a job does next.
#[derive(Debug)]
pub enum Action {
    /// Make sure the directory exists, creating it and its parents.
    CreateDirectory(String),
    /// Run the worker with these arguments to dump the media's metadata.
    QueryInfo(Vec<String>),
    /// Start the worker with these arguments, with piped output.
    LaunchWorker(Vec<String>),
    /// Hand in the next input.
    Continue,
    /// The job is over: the downloaded file's path, or why it failed.
    Finished(Result<String, PegasusError>),
}

/// The events to publish, in order, and the next action.
#[derive(Debug)]
pub struct Step {
    pub events: Vec<ProgressEvent>,
    pub action: Action,
}

/// A fetch request as the service receives it.
#[derive(Clone, Debug)]
pub struct SubmitPayload {
    pub media_url: String,
    pub output_dir: Option<String>,
    pub processing_options: Vec<String>,
}

/// One fetch request and where its run stands. Its methods take what the
/// outside world reported and say what to publish and do next; a finished
/// job ignores all further input.
pub struct Job {
    id: String,
    url: String,
    target_dir: String,
    audio_only: bool,
    add_thumbnail: bool,
    state: JobState,
    output_path: String,
    last_download: u64,
    trace: Ghost<Seq<EventView>>,
}

pub struct JobView {
    pub id: Seq<char>,
    pub url: Seq<char>,
    pub target_dir: Seq<char>,
    pub audio_only: bool,
    pub add_thumbnail: bool,
    pub state: JobState,
    pub output_path: Seq<char>,
    /// The progress of the last `Downloading` event published (0 before one).
    pub last_download: nat,
    /// Every event the job has asked to publish, in order.
    pub trace: Seq<EventView>,
}

impl View for Job {
    type V = JobView;

    closed spec fn view(&self) -> JobView {
        JobView {
            id: self.id@,
            url: self.url@,
            target_dir: self.target_dir@,
            audio_only: self.audio_only,
            add_thumbnail: self.add_thumbnail,
            state: self.state,
            output_path: self.output_path@,
            last_download: self.last_download as nat,
            trace: self.trace@,
        }
    }
}

pub open spec fn is_finished(s: JobState) -> bool {
    s == JobState::Completed || s == JobState::Failed
}

pub open spec fn events_view(v: Seq<ProgressEvent>) -> Seq<EventView> {
    v.map_values(|e: ProgressEvent| e@)
}

pub open spec fn strings_view(v: Seq<String>) -> Seq<Seq<char>> {
    v.map_values(|s: String| s@)
}

/// How many events of `t` end a job.
pub open spec fn terminal_count(t: Seq<EventView>) -> nat
    decreases t.len(),
{
    if t.len() == 0 {
        0
    } else {
        terminal_count(t.drop_last()) + if t.last().stage.is_terminal() {
            1nat
        } else {
            0nat
        }
    }
}

/// An event of job `j`.
pub open spec fn ev(j: JobView, stage: Stage, progress: nat, message: Seq<char>) -> EventView {
    EventView { job_id: j.id, url: j.url, stage, progress, message }
}

pub open spec fn has_option(options: Seq<String>, name: Seq<char>) -> bool {
    exists|i: int| 0 <= i < options.len() && (#[trigger] options[i])@ == name
}

/// The worker's arguments for the download itself.
pub open spec fn worker_args(
    audio_only: bool,
    add_thumbnail: bool,
    output: Seq<char>,
    url: Seq<char>,
) -> Seq<Seq<char>> {
    let format = if audio_only {
        seq![
            "--extract-audio"@,
            "--audio-format"@,
            "mp3"@,
            "--audio-quality"@,
            "0"@,
            "--embed-metadata"@,
            "--newline"@,
            "--progress"@,
        ]
    } else {
        seq![
            "-f"@,
            "bestvideo[ext=mp4]+bestaudio[ext=m4a]/best[ext=mp4]/best"@,
            "--merge-output-format"@,
            "mp4"@,
            "--newline"@,
            "--progress"@,
        ]
    };
    let thumb = if add_thumbnail { seq!["--embed-thumbnail"@] } else { Seq::empty() };
    format + thumb + seq!["--output"@, output, url]
}

/// The worker's arguments for dumping metadata.
pub open spec fn info_args(url: Seq<char>) -> Seq<Seq<char>> {
    seq!["--dump-json"@, url]
}

/// The file a job writes, from the title it found.
pub open spec fn output_path_of(j: JobView, title: Seq<char>) -> Seq<char> {
    join_path(
        j.target_dir,
        sanitized(title) + if j.audio_only { ".mp3"@ } else { ".mp4"@ },
    )
}

/// The event a line of the worker's standard output gives, if any. Its
/// progress never falls below what the job last published for the download;
/// its message keeps the worker's own reading.
pub open spec fn line_event(j: JobView, line: Seq<char>) -> Option<EventView> {
    match captured(line, Field::Percent) {
        Some(t) => if is_number(t) {
            let p = saturate(percent_hundredths(t)) as nat;
            Some(
                ev(
                    j,
                    Stage::Downloading,
                    if p > j.last_download { p } else { j.last_download },
                    progress_message(p, captured(line, Field::Eta), captured(line, Field::Speed)),
                ),
            )
        } else {
            None
        },
        None => None,
    }
}

pub open spec fn contains(s: Seq<char>, lit: Seq<char>) -> bool {
    exists|i: int| #[trigger] has_at(s, i, lit)
}

/// `a` and `b` agree on all but state, output path and trace, and `b`'s
/// trace is `a`'s followed by the events of `r`.
pub open spec fn stepped(a: JobView, b: JobView, r: Step) -> bool {
    &&& b.id == a.id
    &&& b.url == a.url
    &&& b.target_dir == a.target_dir
    &&& b.audio_only == a.audio_only
    &&& b.add_thumbnail == a.add_thumbnail
    &&& b.trace == a.trace + events_view(r.events@)
}

/// The input did not fit the state: nothing changed or is to be done.
pub open spec fn ignored(a: JobView, b: JobView, r: Step) -> bool {
    &&& b == a
    &&& r.events@.len() == 0
    &&& r.action is Continue
}

/// The job moved on without an event or an action of its own.
pub open spec fn quiet(a: JobView, b: JobView, r: Step) -> bool {
    &&& stepped(a, b, r)
    &&& b.state == a.state
    &&& b.output_path == a.output_path
    &&& r.action is Continue
}

/// The job failed: one `Failed` event with the error's text, and the error
/// as its result.
pub open spec fn failed(a: JobView, b: JobView, r: Step) -> bool {
    &&& stepped(a, b, r)
    &&& b.state == JobState::Failed
    &&& b.output_path == a.output_path
    &&& r.action is Finished
    &&& r.action->Finished_0 is Err
    &&& events_view(r.events@) == seq![
        ev(a, Stage::Failed, 0, "Download failed: "@ + error_text(r.action->Finished_0->Err_0)),
    ]
}

/// The job failed with an I/O error (`io`) or a command error, whose detail
/// text is `detail`.
pub open spec fn failed_with(a: JobView, b: JobView, r: Step, io: bool, detail: Seq<char>) -> bool {
    &&& failed(a, b, r)
    &&& (if io {
        r.action->Finished_0->Err_0 is IoError
    } else {
        r.action->Finished_0->Err_0 is ExternalCommandError
    })
    &&& crate::error::error_detail(r.action->Finished_0->Err_0) == detail
}

proof fn lemma_count_append(a: Seq<EventView>, b: Seq<EventView>)
    ensures
        terminal_count(a + b) == terminal_count(a) + terminal_count(b),
    decreases b.len(),
{
    if b.len() == 0 {
        assert(a + b =~= a);
    } else {
        lemma_count_append(a, b.drop_last());
        assert((a + b).drop_last() =~= a + b.drop_last());
    }
}

/// Within each stage, progress never goes down along `t`.
pub open spec fn stage_ordered(t: Seq<EventView>) -> bool {
    forall|i: int, j: int|
        0 <= i < j < t.len() && t[i].stage == t[j].stage ==> #[trigger] t[i].progress
            <= #[trigger] t[j].progress
}

/// The progress that each stage a job sets itself carries.
pub open spec fn paced(e: EventView) -> bool {
    match e.stage {
        Stage::Starting => e.progress == 0,
        Stage::Info => 1000 <= e.progress <= 2000,
        Stage::Downloading => e.progress <= FULL_PROGRESS,
        Stage::Warning => e.progress == 0,
        Stage::Completed => e.progress == 10000,
        Stage::Failed => e.progress == 0,
    }
}

/// Every `Downloading` event of `t` is at most `last`.
pub open spec fn downloads_at_most(t: Seq<EventView>, last: nat) -> bool {
    forall|i: int| 0 <= i < t.len() && (#[trigger] t[i]).stage == Stage::Downloading ==> t[i].progress <= last
}

proof fn lemma_push_ordered(t: Seq<EventView>, x: EventView, last: nat, next: nat)
    requires
        stage_ordered(t),
        forall|i: int| 0 <= i < t.len() ==> paced(#[trigger] t[i]),
        paced(x),
        x.stage == Stage::Info ==> x.progress == 2000 || forall|i: int|
            0 <= i < t.len() ==> (#[trigger] t[i]).stage != Stage::Info,
        downloads_at_most(t, last),
        if x.stage == Stage::Downloading {
            last <= x.progress && x.progress == next
        } else {
            next == last
        },
    ensures
        stage_ordered(t.push(x)),
        forall|i: int| 0 <= i < t.push(x).len() ==> paced(#[trigger] t.push(x)[i]),
        downloads_at_most(t.push(x), next),
{
    let u = t.push(x);
    assert forall|i: int, j: int|
        0 <= i < j < u.len() && u[i].stage == u[j].stage
            implies #[trigger] u[i].progress <= #[trigger] u[j].progress by {
        assert(u[i] == t[i]);
        if j < t.len() {
            assert(u[j] == t[j]);
        } else {
            assert(paced(t[i]));
        }
    }
    assert forall|i: int| 0 <= i < u.len() implies paced(#[trigger] u[i]) by {
        if i < t.len() {
            assert(u[i] == t[i]);
        }
    }
    assert forall|i: int| 0 <= i < u.len() && (#[trigger] u[i]).stage == Stage::Downloading
        implies u[i].progress <= next by {
        if i < t.len() {
            assert(u[i] == t[i]);
        }
    }
}

proof fn lemma_push_event(t: Seq<EventView>, x: EventView, id: Seq<char>)
    requires
        forall|i: int| 0 <= i < t.len() ==> (#[trigger] t[i]).job_id == id,
        x.job_id == id,
    ensures
        t + seq![x] == t.push(x),
        terminal_count(t.push(x)) == terminal_count(t) + if x.stage.is_terminal() {
            1nat
        } else {
            0nat
        },
        forall|i: int| 0 <= i < t.push(x).len() ==> (#[trigger] t.push(x)[i]).job_id == id,
{
    assert(t + seq![x] =~= t.push(x));
    assert(t.push(x).drop_last() =~= t);
    assert forall|i: int| 0 <= i < t.push(x).len() implies (#[trigger] t.push(x)[i]).job_id
        == id by {
        if i < t.len() {
            assert(t.push(x)[i] == t[i]);
        }
    }
}

fn concat(a: &str, b: &str) -> (r: String)
    ensures
        r@ == a@ + b@,
{
    let mut r = String::from_str(a);
    r.append(b);
    r
}

fn has_option_exec(options: &Vec<String>, name: &str) -> (r: bool)
    ensures
        r == has_option(options@, name@),
{
    let wanted = String::from_str(name);
    let mut i: usize = 0;
    while i < options.len()
        invariant
            wanted@ == name@,
            forall|k: int| 0 <= k < i ==> (#[trigger] options@[k])@ != name@,
        decreases options.len() - i,
    {
        if options[i] == wanted {
            return true;
        }
        i = i + 1;
    }
    false
}

fn strings(parts: &Vec<&str>) -> (r: Vec<String>)
    ensures
        r@.len() == parts@.len(),
        forall|k: int| 0 <= k < r@.len() ==> (#[trigger] r@[k])@ == parts@[k]@,
{
    let mut r: Vec<String> = Vec::new();
    let mut i: usize = 0;
    while i < parts.len()
        invariant
            i <= parts@.len(),
            r@.len() == i,
            forall|k: int| 0 <= k < i ==> (#[trigger] r@[k])@ == parts@[k]@,
        decreases parts.len() - i,
    {
        r.push(String::from_str(parts[i]));
        i = i + 1;
    }
    r
}

/// Builds the worker's arguments for the download (see `worker_args`).
pub fn build_worker_args(audio_only: bool, add_thumbnail: bool, output: &str, url: &str) -> (r: Vec<
    String,
>)
    ensures
        strings_view(r@) == worker_args(audio_only, add_thumbnail, output@, url@),
{
    let mut parts: Vec<&str> = if audio_only {
        vec![
            "--extract-audio",
            "--audio-format",
            "mp3",
            "--audio-quality",
            "0",
            "--embed-metadata",
            "--newline",
            "--progress",
        ]
    } else {
        vec![
            "-f",
            "bestvideo[ext=mp4]+bestaudio[ext=m4a]/best[ext=mp4]/best",
            "--merge-output-format",
            "mp4",
            "--newline",
            "--progress",
        ]
    };
    if add_thumbnail {
        parts.push("--embed-thumbnail");
    }
    parts.push("--output");
    parts.push(output);
    parts.push(url);
    let r = strings(&parts);
    assert(strings_view(r@) =~= worker_args(audio_only, add_thumbnail, output@, url@));
    r
}

fn line_contains(line: &str, lit: &str) -> (r: bool)
    ensures
        r == contains(line@, lit@),
{
    let s = chars_of(line);
    let n = s.len();
    let mut i: usize = 0;
    loop
        invariant
            s@ == line@,
            n == s@.len(),
            i <= n,
            forall|k: int| 0 <= k < i ==> !#[trigger] has_at(line@, k, lit@),
        decreases n - i,
    {
        if literal_at(&s, i, lit) {
            return true;
        }
        if i == n {
            assert forall|k: int| !(#[trigger] has_at(line@, k, lit@)) by {
                if k > n {
                    assert(!has_at(line@, k, lit@));
                }
            }
            return false;
        }
        i = i + 1;
    }
}

impl Job {
    pub closed spec fn wf(&self) -> bool {
        &&& terminal_count(self.trace@) == if is_finished(self.state) {
            1nat
        } else {
            0nat
        }
        &&& is_finished(self.state) ==> self.trace@.len() > 0
            && self.trace@.last().stage.is_terminal()
        &&& forall|i: int|
            0 <= i < self.trace@.len() ==> (#[trigger] self.trace@[i]).job_id == self.id@
        &&& stage_ordered(self.trace@)
        &&& forall|i: int| 0 <= i < self.trace@.len() ==> paced(#[trigger] self.trace@[i])
        &&& self.state == JobState::Starting ==> forall|i: int|
            0 <= i < self.trace@.len() ==> (#[trigger] self.trace@[i]).stage != Stage::Info
        &&& self.last_download <= FULL_PROGRESS
        &&& downloads_at_most(self.trace@, self.last_download as nat)
        &&& (self.state == JobState::Starting || self.state == JobState::FetchingInfo
            || self.state == JobState::Launching) ==> self.last_download == 0
    }

    /// Accepts a request: the job starts with a `Starting` event and asks for
    /// its target directory.
    pub fn submit(job_id: &str, url: &str, output_dir: &Option<String>, options: &Vec<String>) -> (r: (
        Job,
        Step,
    ))
        ensures
            r.0.wf(),
            r.0@.id == job_id@,
            r.0@.url == url@,
            r.0@.target_dir == target_directory_of(opt_view(*output_dir)),
            r.0@.audio_only == has_option(options@, "audio-only"@),
            r.0@.add_thumbnail == has_option(options@, "add-thumbnail"@),
            r.0@.state == JobState::Starting,
            r.0@.trace == events_view(r.1.events@),
            events_view(r.1.events@) == seq![
                ev(r.0@, Stage::Starting, 0, "Preparing download..."@),
            ],
            r.1.action is CreateDirectory,
            r.1.action->CreateDirectory_0@ == r.0@.target_dir,
    {
        let target_dir = target_directory(output_dir);
        let audio_only = has_option_exec(options, "audio-only");
        let add_thumbnail = has_option_exec(options, "add-thumbnail");
        let first = ProgressEvent::new(job_id, url, Stage::Starting, 0, "Preparing download...");
        let ghost t = seq![first@];
        let job = Job {
            id: String::from_str(job_id),
            url: String::from_str(url),
            target_dir: target_dir.clone(),
            audio_only,
            add_thumbnail,
            state: JobState::Starting,
            output_path: String::new(),
            last_download: 0,
            trace: Ghost(t),
        };
        let events = vec![first];
        proof {
            assert(events_view(events@) =~= t);
            lemma_push_event(Seq::empty(), first@, job@.id);
            lemma_push_ordered(Seq::empty(), first@, 0, 0);
            assert(Seq::<EventView>::empty().push(first@) =~= t);
        }
        (job, Step { events, action: Action::CreateDirectory(target_dir) })
    }

    /// The job's state.
    pub fn state(&self) -> (r: JobState)
        ensures
            r == self@.state,
    {
        self.state
    }

    /// The job's identifier.
    pub fn id(&self) -> (r: &str)
        ensures
            r@ == self@.id,
    {
        self.id.as_str()
    }

    /// The file the job writes, once its title is known.
    pub fn output_path(&self) -> (r: &str)
        ensures
            r@ == self@.output_path,
    {
        self.output_path.as_str()
    }

    fn event(&self, stage: Stage, progress: u64, message: &str) -> (r: ProgressEvent)
        ensures
            r@ == ev(self@, stage, progress as nat, message@),
    {
        ProgressEvent::new(self.id.as_str(), self.url.as_str(), stage, progress, message)
    }

    fn fail(&mut self, e: PegasusError) -> (r: Step)
        requires
            old(self).wf(),
            !is_finished(old(self)@.state),
        ensures
            final(self).wf(),
            failed(old(self)@, final(self)@, r),
            r.action->Finished_0 == Err::<String, PegasusError>(e),
    {
        let text = e.describe();
        let message = concat("Download failed: ", text.as_str());
        let failed = self.event(Stage::Failed, 0, message.as_str());
        proof {
            lemma_push_event(self.trace@, failed@, self.id@);
            lemma_push_ordered(self.trace@, failed@, self.last_download as nat, self.last_download as nat);
        }
        self.trace = Ghost(self.trace@.push(failed@));
        self.state = JobState::Failed;
        let events = vec![failed];
        proof {
            assert(events_view(events@) =~= seq![failed@]);
        }
        Step { events, action: Action::Finished(Err(e)) }
    }

    /// The target directory is there: fetch the media's metadata.
    pub fn directory_ready(&mut self) -> (r: Step)
        requires
            old(self).wf(),
        ensures
            final(self).wf(),
            old(self)@.state != JobState::Starting ==> ignored(old(self)@, final(self)@, r),
            old(self)@.state == JobState::Starting ==> {
                &&& stepped(old(self)@, final(self)@, r)
                &&& final(self)@.state == JobState::FetchingInfo
                &&& final(self)@.output_path == old(self)@.output_path
                &&& events_view(r.events@) == seq![
                    ev(old(self)@, Stage::Info, 1000, "Fetching video information..."@),
                ]
                &&& r.action is QueryInfo
                &&& strings_view(r.action->QueryInfo_0@) == info_args(old(self)@.url)
            },
    {
        if self.state != JobState::Starting {
            return Step { events: Vec::new(), action: Action::Continue };
        }
        let e = self.event(Stage::Info, 1000, "Fetching video information...");
        proof {
            lemma_push_event(self.trace@, e@, self.id@);
            lemma_push_ordered(self.trace@, e@, self.last_download as nat, self.last_download as nat);
        }
        self.trace = Ghost(self.trace@.push(e@));
        self.state = JobState::FetchingInfo;
        let args = vec![String::from_str("--dump-json"), self.url.clone()];
        let events = vec![e];
        proof {
            assert(events_view(events@) =~= seq![e@]);
            assert(strings_view(args@) =~= info_args(self.url@));
        }
        Step { events, action: Action::QueryInfo(args) }
    }

    /// The target directory could not be created: the job fails.
    pub fn directory_failed(&mut self, err: &str) -> (r: Step)
        requires
            old(self).wf(),
        ensures
            final(self).wf(),
            old(self)@.state != JobState::Starting ==> ignored(old(self)@, final(self)@, r),
            old(self)@.state == JobState::Starting ==> failed_with(
                old(self)@,
                final(self)@,
                r,
                true,
                err@,
            ),
    {
        if self.state != JobState::Starting {
            return Step { events: Vec::new(), action: Action::Continue };
        }
        self.fail(PegasusError::IoError(String::from_str(err)))
    }

    /// The metadata query could not be run: the job fails.
    pub fn info_launch_failed(&mut self, err: &str) -> (r: Step)
        requires
            old(self).wf(),
        ensures
            final(self).wf(),
            old(self)@.state != JobState::FetchingInfo ==> ignored(old(self)@, final(self)@, r),
            old(self)@.state == JobState::FetchingInfo ==> failed_with(
                old(self)@,
                final(self)@,
                r,
                false,
                "Failed to execute yt-dlp command: "@ + err@,
            ),
    {
        if self.state != JobState::FetchingInfo {
            return Step { events: Vec::new(), action: Action::Continue };
        }
        self.fail(
            PegasusError::ExternalCommandError(concat("Failed to execute yt-dlp command: ", err)),
        )
    }

    /// The metadata query ended. On failure the job fails with its error
    /// output; otherwise its output is read as JSON (see `info_parsed`).
    pub fn info_output(&mut self, success: bool, stdout: &str, stderr: &str) -> (r: Step)
        requires
            old(self).wf(),
        ensures
            final(self).wf(),
            old(self)@.state != JobState::FetchingInfo ==> ignored(old(self)@, final(self)@, r),
            old(self)@.state == JobState::FetchingInfo && !success ==> failed_with(
                old(self)@,
                final(self)@,
                r,
                false,
                "yt-dlp command failed: "@ + stderr@,
            ),
            old(self)@.state == JobState::FetchingInfo && success && !json_accepts(stdout@)
                ==> failed_with(
                old(self)@,
                final(self)@,
                r,
                false,
                metadata_error_detail(json_error_text(stdout@)),
            ),
            old(self)@.state == JobState::FetchingInfo && success && json_accepts(stdout@)
                ==> started_download(
                old(self)@,
                final(self)@,
                r,
                title_or_unknown(json_title(stdout@)),
            ),
    {
        if self.state != JobState::FetchingInfo {
            return Step { events: Vec::new(), action: Action::Continue };
        }
        if !success {
            return self.fail(
                PegasusError::ExternalCommandError(concat("yt-dlp command failed: ", stderr)),
            );
        }
        match title_from_metadata(stdout) {
            Ok(title) => self.start_download(title.as_str()),
            Err(e) => self.fail(e),
        }
    }

    /// What follows a read of the metadata, given what the read returned:
    /// a title (or none) starts the download, an error fails the job.
    pub fn info_parsed(&mut self, parsed: Result<Option<String>, String>) -> (r: Step)
        requires
            old(self).wf(),
        ensures
            final(self).wf(),
            old(self)@.state != JobState::FetchingInfo ==> ignored(old(self)@, final(self)@, r),
            old(self)@.state == JobState::FetchingInfo && parsed is Err ==> failed_with(
                old(self)@,
                final(self)@,
                r,
                false,
                metadata_error_detail(parsed->Err_0@),
            ),
            old(self)@.state == JobState::FetchingInfo && parsed is Ok ==> started_download(
                old(self)@,
                final(self)@,
                r,
                title_or_unknown(opt_view(parsed->Ok_0)),
            ),
    {
        if self.state != JobState::FetchingInfo {
            return Step { events: Vec::new(), action: Action::Continue };
        }
        match title_from_parsed(parsed) {
            Ok(title) => self.start_download(title.as_str()),
            Err(e) => self.fail(e),
        }
    }

    fn start_download(&mut self, title: &str) -> (r: Step)
        requires
            old(self).wf(),
            old(self)@.state == JobState::FetchingInfo,
        ensures
            final(self).wf(),
            started_download(old(self)@, final(self)@, r, title@),
    {
        let safe = sanitize_filename(title);
        let name = concat(safe.as_str(), if self.audio_only { ".mp3" } else { ".mp4" });
        let path = join(self.target_dir.as_str(), name.as_str());
        let found = self.event(Stage::Info, 2000, concat("Found video: ", title).as_str());
        let args = build_worker_args(
            self.audio_only,
            self.add_thumbnail,
            path.as_str(),
            self.url.as_str(),
        );
        proof {
            lemma_push_event(self.trace@, found@, self.id@);
            lemma_push_ordered(self.trace@, found@, self.last_download as nat, self.last_download as nat);
        }
        self.trace = Ghost(self.trace@.push(found@));
        self.state = JobState::Launching;
        self.output_path = path;
        let events = vec![found];
        proof {
            assert(events_view(events@) =~= seq![found@]);
        }
        Step { events, action: Action::LaunchWorker(args) }
    }

    /// The worker is running: a `Downloading` event marks the start.
    pub fn worker_started(&mut self) -> (r: Step)
        requires
            old(self).wf(),
        ensures
            final(self).wf(),
            old(self)@.state != JobState::Launching ==> ignored(old(self)@, final(self)@, r),
            old(self)@.state == JobState::Launching ==> {
                &&& stepped(old(self)@, final(self)@, r)
                &&& final(self)@.state == JobState::Downloading
                &&& final(self)@.output_path == old(self)@.output_path
                &&& events_view(r.events@) == seq![
                    ev(
                        old(self)@,
                        Stage::Downloading,
                        0,
                        if old(self)@.audio_only {
                            "Starting audio download..."@
                        } else {
                            "Starting video download..."@
                        },
                    ),
                ]
                &&& final(self)@.last_download == 0
                &&& r.action is Continue
            },
    {
        if self.state != JobState::Launching {
            return Step { events: Vec::new(), action: Action::Continue };
        }
        let starting = self.event(
            Stage::Downloading,
            0,
            if self.audio_only {
                "Starting audio download..."
            } else {
                "Starting video download..."
            },
        );
        let r = self.emit_one(starting);
        self.state = JobState::Downloading;
        r
    }

    /// The worker could not be started: the job fails.
    pub fn worker_launch_failed(&mut self, err: &str) -> (r: Step)
        requires
            old(self).wf(),
        ensures
            final(self).wf(),
            old(self)@.state != JobState::Launching ==> ignored(old(self)@, final(self)@, r),
            old(self)@.state == JobState::Launching ==> failed_with(
                old(self)@,
                final(self)@,
                r,
                false,
                "Failed to execute yt-dlp command: "@ + err@,
            ),
    {
        if self.state != JobState::Launching {
            return Step { events: Vec::new(), action: Action::Continue };
        }
        self.fail(
            PegasusError::ExternalCommandError(concat("Failed to execute yt-dlp command: ", err)),
        )
    }

    /// A line of the worker's standard output: a progress line becomes a
    /// `Downloading` event, any other line is dropped.
    pub fn stdout_line(&mut self, line: &str) -> (r: Step)
        requires
            old(self).wf(),
        ensures
            final(self).wf(),
            old(self)@.state != JobState::Downloading ==> ignored(old(self)@, final(self)@, r),
            old(self)@.state == JobState::Downloading ==> quiet(old(self)@, final(self)@, r)
                && events_view(r.events@) == match line_event(old(self)@, line@) {
                Some(e) => seq![e],
                None => Seq::empty(),
            } && final(self)@.last_download == match line_event(old(self)@, line@) {
                Some(e) => e.progress,
                None => old(self)@.last_download,
            },
            old(self)@.state == JobState::Downloading && r.events@.len() > 0 ==> r.events@[0].progress
                >= old(self)@.last_download,
    {
        if self.state != JobState::Downloading {
            return Step { events: Vec::new(), action: Action::Continue };
        }
        match parse_progress_line(line) {
            Some(p) => {
                let message = describe_progress(&p);
                let progress = if p.progress > self.last_download {
                    p.progress
                } else {
                    self.last_download
                };
                let e = self.event(Stage::Downloading, progress, message.as_str());
                let r = self.emit_one(e);
                assert(r.events@[0]@ == events_view(r.events@)[0]);
                r
            },
            None => {
                let events: Vec<ProgressEvent> = Vec::new();
                assert(events_view(events@) =~= Seq::empty());
                assert(self.trace@ + Seq::<EventView>::empty() =~= self.trace@);
                Step { events, action: Action::Continue }
            },
        }
    }

    /// A line of the worker's error output: one that reports an `ERROR`
    /// becomes a `Warning` event carrying the line, any other is dropped.
    pub fn stderr_line(&mut self, line: &str) -> (r: Step)
        requires
            old(self).wf(),
        ensures
            final(self).wf(),
            old(self)@.state != JobState::Downloading ==> ignored(old(self)@, final(self)@, r),
            old(self)@.state == JobState::Downloading ==> quiet(old(self)@, final(self)@, r)
                && events_view(r.events@) == if contains(line@, "ERROR"@) {
                seq![ev(old(self)@, Stage::Warning, 0, line@)]
            } else {
                Seq::empty()
            } && final(self)@.last_download == old(self)@.last_download,
    {
        if self.state != JobState::Downloading {
            return Step { events: Vec::new(), action: Action::Continue };
        }
        if line_contains(line, "ERROR") {
            let e = self.event(Stage::Warning, 0, line);
            self.emit_one(e)
        } else {
            let events: Vec<ProgressEvent> = Vec::new();
            assert(events_view(events@) =~= Seq::empty());
            assert(self.trace@ + Seq::<EventView>::empty() =~= self.trace@);
            Step { events, action: Action::Continue }
        }
    }

    fn emit_one(&mut self, e: ProgressEvent) -> (r: Step)
        requires
            old(self).wf(),
            !is_finished(old(self)@.state),
            !e@.stage.is_terminal(),
            e@.job_id == old(self)@.id,
            paced(e@),
            e@.stage != Stage::Info,
            old(self)@.state != JobState::Starting,
            e@.stage == Stage::Downloading ==> old(self)@.last_download <= e@.progress,
            e@.stage == Stage::Downloading && old(self)@.state != JobState::Downloading
                ==> e@.progress == 0,
        ensures
            final(self).wf(),
            quiet(old(self)@, final(self)@, r),
            events_view(r.events@) == seq![e@],
            final(self)@.last_download == if e@.stage == Stage::Downloading {
                e@.progress
            } else {
                old(self)@.last_download
            },
    {
        let next = if e.stage == Stage::Downloading {
            e.progress
        } else {
            self.last_download
        };
        proof {
            lemma_push_event(self.trace@, e@, self.id@);
            lemma_push_ordered(self.trace@, e@, self.last_download as nat, next as nat);
        }
        self.last_download = next;
        self.trace = Ghost(self.trace@.push(e@));
        let ghost v = e@;
        let events = vec![e];
        proof {
            assert(events_view(events@) =~= seq![v]);
        }
        Step { events, action: Action::Continue }
    }

    /// The worker ended. Success completes the job with its output path;
    /// a failure status fails it.
    pub fn worker_exited(&mut self, success: bool, status: &str) -> (r: Step)
        requires
            old(self).wf(),
        ensures
            final(self).wf(),
            old(self)@.state != JobState::Downloading ==> ignored(old(self)@, final(self)@, r),
            old(self)@.state == JobState::Downloading && success ==> {
                &&& stepped(old(self)@, final(self)@, r)
                &&& final(self)@.state == JobState::Completed
                &&& final(self)@.output_path == old(self)@.output_path
                &&& events_view(r.events@) == seq![
                    ev(
                        old(self)@,
                        Stage::Completed,
                        10000,
                        "Download completed successfully: "@ + old(self)@.output_path,
                    ),
                ]
                &&& r.action is Finished
                &&& r.action->Finished_0 is Ok
                &&& r.action->Finished_0->Ok_0@ == old(self)@.output_path
            },
            old(self)@.state == JobState::Downloading && !success ==> failed_with(
                old(self)@,
                final(self)@,
                r,
                false,
                "yt-dlp command failed with status: "@ + status@,
            ),
    {
        if self.state != JobState::Downloading {
            return Step { events: Vec::new(), action: Action::Continue };
        }
        if !success {
            return self.fail(
                PegasusError::ExternalCommandError(
                    concat("yt-dlp command failed with status: ", status),
                ),
            );
        }
        let message = concat("Download completed successfully: ", self.output_path.as_str());
        let done = self.event(Stage::Completed, 10000, message.as_str());
        proof {
            lemma_push_event(self.trace@, done@, self.id@);
            lemma_push_ordered(self.trace@, done@, self.last_download as nat, self.last_download as nat);
        }
        self.trace = Ghost(self.trace@.push(done@));
        self.state = JobState::Completed;
        let events = vec![done];
        proof {
            assert(events_view(events@) =~= seq![done@]);
        }
        Step { events, action: Action::Finished(Ok(self.output_path.clone())) }
    }

    /// Waiting for the worker failed: the job fails.
    pub fn wait_failed(&mut self, err: &str) -> (r: Step)
        requires
            old(self).wf(),
        ensures
            final(self).wf(),
            old(self)@.state != JobState::Downloading ==> ignored(old(self)@, final(self)@, r),
            old(self)@.state == JobState::Downloading ==> failed_with(
                old(self)@,
                final(self)@,
                r,
                false,
                "Failed to wait for yt-dlp command: "@ + err@,
            ),
    {
        if self.state != JobState::Downloading {
            return Step { events: Vec::new(), action: Action::Continue };
        }
        self.fail(
            PegasusError::ExternalCommandError(concat("Failed to wait for yt-dlp command: ", err)),
        )
    }
}

/// A job publishes at most one terminal event (`Completed` or `Failed`), it
/// is the last event the job published, and there is one exactly when the
/// job is finished; every event carries the job's identifier. Since a
/// finished job ignores every input, nothing follows that event.
pub proof fn lemma_single_terminal_event(job: &Job)
    requires
        job.wf(),
    ensures
        terminal_count(job@.trace) <= 1,
        (terminal_count(job@.trace) == 1) == is_finished(job@.state),
        is_finished(job@.state) ==> job@.trace.len() > 0 && job@.trace.last().stage.is_terminal(),
        forall|i: int| 0 <= i < job@.trace.len() ==> (#[trigger] job@.trace[i]).job_id == job@.id,
{
}

/// Progress never goes down within a stage, `Downloading` included: the
/// download's events never fall below the last one published, whatever the
/// worker reports. A new stage may start lower (a warning or a failure carries
/// 0). No event exceeds a complete download, which `Completed` carries.
pub proof fn lemma_progress_ordered_within_stages(job: &Job)
    requires
        job.wf(),
    ensures
        stage_ordered(job@.trace),
        forall|i: int| 0 <= i < job@.trace.len() ==> paced(#[trigger] job@.trace[i]),
        forall|i: int| 0 <= i < job@.trace.len() ==> (#[trigger] job@.trace[i]).progress
            <= FULL_PROGRESS,
{
    assert forall|i: int| 0 <= i < job@.trace.len() implies (#[trigger] job@.trace[i]).progress
        <= FULL_PROGRESS by {
        assert(paced(job@.trace[i]));
    }
}

/// The job found its title and asks for the worker: a `Found video` event
/// and the worker's arguments.
pub open spec fn started_download(a: JobView, b: JobView, r: Step, title: Seq<char>) -> bool {
    &&& stepped(a, b, r)
    &&& b.state == JobState::Launching
    &&& b.output_path == output_path_of(a, title)
    &&& events_view(r.events@) == seq![ev(a, Stage::Info, 2000, "Found video: "@ + title)]
    &&& r.action is LaunchWorker
    &&& strings_view(r.action->LaunchWorker_0@) == worker_args(
        a.audio_only,
        a.add_thumbnail,
        b.output_path,
        a.url,
    )
}

} // verus!
