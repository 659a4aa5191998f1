use vstd::prelude::*;
use crate::progress::ProgressLine;

verus! {

/// The stage label that an event carries.
#[derive(Clone, Copy, PartialEq, Eq, Structural, Debug)]
pub enum Stage {
    Starting,
    Info,
    Downloading,
    Warning,
    Completed,
    Failed,
}

pub open spec fn stage_label(s: Stage) -> Seq<char> {
    match s {
        Stage::Starting => "starting"@,
        Stage::Info => "info"@,
        Stage::Downloading => "downloading"@,
        Stage::Warning => "warning"@,
        Stage::Completed => "completed"@,
        Stage::Failed => "error"@,
    }
}

impl Stage {
    /// The label sent to observers.
    pub fn label(&self) -> (r: &'static str)
        ensures
            r@ == stage_label(*self),
    {
        match self {
            Stage::Starting => "starting",
            Stage::Info => "info",
            Stage::Downloading => "downloading",
            Stage::Warning => "warning",
            Stage::Completed => "completed",
            Stage::Failed => "error",
        }
    }

    pub open spec fn is_terminal(self) -> bool {
        self == Stage::Completed || self == Stage::Failed
    }
}

/// One broadcast message about a job. `progress` is completion in
/// ten-thousandths: 10000 is done.
#[derive(Clone, Debug)]
pub struct ProgressEvent {
    pub job_id: String,
    pub url: String,
    pub stage: Stage,
    pub progress: u64,
    pub message: String,
}

pub struct EventView {
    pub job_id: Seq<char>,
    pub url: Seq<char>,
    pub stage: Stage,
    pub progress: nat,
    pub message: Seq<char>,
}

impl View for ProgressEvent {
    type V = EventView;

    open spec fn view(&self) -> EventView {
        EventView {
            job_id: self.job_id@,
            url: self.url@,
            stage: self.stage,
            progress: self.progress as nat,
            message: self.message@,
        }
    }
}

impl ProgressEvent {
    pub fn new(job_id: &str, url: &str, stage: Stage, progress: u64, message: &str) -> (r: Self)
        ensures
            r@ == (EventView {
                job_id: job_id@,
                url: url@,
                stage,
                progress: progress as nat,
                message: message@,
            }),
    {
        ProgressEvent {
            job_id: String::from_str(job_id),
            url: String::from_str(url),
            stage,
            progress,
            message: String::from_str(message),
        }
    }

    /// A copy with the same contents.
    pub fn duplicate(&self) -> (r: Self)
        ensures
            r@ == self@,
    {
        ProgressEvent {
            job_id: self.job_id.clone(),
            url: self.url.clone(),
            stage: self.stage,
            progress: self.progress,
            message: self.message.clone(),
        }
    }
}

pub open spec fn digit_char(d: nat) -> char {
    if d == 0 {
        '0'
    } else if d == 1 {
        '1'
    } else if d == 2 {
        '2'
    } else if d == 3 {
        '3'
    } else if d == 4 {
        '4'
    } else if d == 5 {
        '5'
    } else if d == 6 {
        '6'
    } else if d == 7 {
        '7'
    } else if d == 8 {
        '8'
    } else {
        '9'
    }
}

/// The decimal digits of `n`, without leading zeros.
pub open spec fn decimal(n: nat) -> Seq<char>
    decreases n,
{
    if n < 10 {
        seq![digit_char(n)]
    } else {
        decimal(n / 10).push(digit_char(n % 10))
    }
}

fn digit_text(d: u64) -> (r: &'static str)
    requires
        d < 10,
    ensures
        r@ == seq![digit_char(d as nat)],
{
    proof {
        reveal_strlit("0");
        reveal_strlit("1");
        reveal_strlit("2");
        reveal_strlit("3");
        reveal_strlit("4");
        reveal_strlit("5");
        reveal_strlit("6");
        reveal_strlit("7");
        reveal_strlit("8");
        reveal_strlit("9");
    }
    let r = if d == 0 {
        "0"
    } else if d == 1 {
        "1"
    } else if d == 2 {
        "2"
    } else if d == 3 {
        "3"
    } else if d == 4 {
        "4"
    } else if d == 5 {
        "5"
    } else if d == 6 {
        "6"
    } else if d == 7 {
        "7"
    } else if d == 8 {
        "8"
    } else {
        "9"
    };
    assert(r@ =~= seq![digit_char(d as nat)]);
    r
}

/// `n` written in decimal.
pub fn decimal_text(n: u64) -> (r: String)
    ensures
        r@ == decimal(n as nat),
    decreases n,
{
    if n < 10 {
        String::from_str(digit_text(n))
    } else {
        let mut r = decimal_text(n / 10);
        r.append(digit_text(n % 10));
        r
    }
}

pub open spec fn or_missing(o: Option<Seq<char>>) -> Seq<char> {
    match o {
        Some(s) => s,
        None => "N/A"@,
    }
}

/// A percentage in hundredths, rounded half up to tenths.
pub open spec fn rounded_tenths(hundredths: nat) -> nat {
    (hundredths + 5) / 10
}

/// `Progress: P%, ETA: E, Speed: S`, with the percentage (given in
/// hundredths) rounded to one decimal and `N/A` for what the line did not
/// give.
pub open spec fn progress_message(
    hundredths: nat,
    eta: Option<Seq<char>>,
    speed: Option<Seq<char>>,
) -> Seq<char> {
    let t = rounded_tenths(hundredths);
    "Progress: "@ + decimal(t / 10) + "."@ + seq![digit_char(t % 10)] + "%, ETA: "@ + or_missing(
        eta,
    ) + ", Speed: "@ + or_missing(speed)
}

fn text_or_missing(o: &Option<String>) -> (r: &str)
    ensures
        r@ == or_missing(crate::progress::opt_view(*o)),
{
    match o {
        Some(s) => s.as_str(),
        None => "N/A",
    }
}

/// The summary text of a progress line.
pub fn describe_progress(p: &ProgressLine) -> (r: String)
    ensures
        r@ == progress_message(
            p.progress as nat,
            crate::progress::opt_view(p.eta),
            crate::progress::opt_view(p.speed),
        ),
{
    let tenths = p.progress / 10 + if p.progress % 10 >= 5 { 1 } else { 0 };
    let mut r = String::from_str("Progress: ");
    let whole = decimal_text(tenths / 10);
    r.append(whole.as_str());
    r.append(".");
    r.append(digit_text(tenths % 10));
    r.append("%, ETA: ");
    r.append(text_or_missing(&p.eta));
    r.append(", Speed: ");
    r.append(text_or_missing(&p.speed));
    r
}

} // verus!
