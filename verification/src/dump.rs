use vstd::prelude::*;
use vstd::std_specs::convert::FromSpecImpl;

verus! {

/// Which data a dump reads.
#[derive(Debug, Clone, Copy, PartialEq, Eq, Structural)]
pub enum DataType {
    Kline,
}

/// Where a dump writes.
#[derive(Debug, Clone, Copy, PartialEq, Eq, Structural)]
pub enum OutputType {
    Stdout,
    File,
}

/// How a dump encodes its records.
#[derive(Debug, Clone, Copy, PartialEq, Eq, Structural)]
pub enum Format {
    Json,
    Csv,
    Parquet,
}

/// The dump command's arguments: the data to dump, the output format, and the
/// output file (standard output when absent; Parquet needs a file).
#[derive(Debug, Clone)]
pub struct Args {
    pub data_type: DataType,
    pub format: Format,
    pub output: Option<String>,
}

/// A text output: standard output or a file appended to.
#[derive(Debug, Clone, Copy)]
pub enum OutputTarget<'a> {
    Stdout,
    File(&'a str),
}

impl<'a> From<Option<&'a str>> for OutputTarget<'a> {
    fn from(value: Option<&'a str>) -> (t: Self) {
        match value {
            Some(path) => OutputTarget::File(path),
            None => OutputTarget::Stdout,
        }
    }
}

impl<'a> FromSpecImpl<Option<&'a str>> for OutputTarget<'a> {
    open spec fn obeys_from_spec() -> bool {
        true
    }

    open spec fn from_spec(v: Option<&'a str>) -> Self {
        match v {
            Some(path) => OutputTarget::File(path),
            None => OutputTarget::Stdout,
        }
    }
}

/// A text target follows the output option: the file when one is given, else standard output.
pub open spec fn target_follows(t: OutputTarget, output: Option<String>) -> bool {
    match (t, output) {
        (OutputTarget::File(f), Some(path)) => f@ == path@,
        (OutputTarget::Stdout, None) => true,
        _ => false,
    }
}

/// The sink a dump writes to.
#[derive(Debug, Clone, Copy)]
pub enum SinkPlan<'a> {
    Json(OutputTarget<'a>),
    Csv(OutputTarget<'a>),
    Parquet(&'a str),
}

/// The sink the arguments ask for: JSON and CSV go to the file when one is given,
/// else to standard output; Parquet needs a file, and without one there is no sink.
pub fn plan_sink<'a>(args: &'a Args) -> (p: Option<SinkPlan<'a>>)
    ensures
        args.format == Format::Json ==> match p {
            Some(SinkPlan::Json(t)) => target_follows(t, args.output),
            _ => false,
        },
        args.format == Format::Csv ==> match p {
            Some(SinkPlan::Csv(t)) => target_follows(t, args.output),
            _ => false,
        },
        args.format == Format::Parquet ==> match (p, args.output) {
            (Some(SinkPlan::Parquet(f)), Some(path)) => f@ == path@,
            (None, None) => true,
            _ => false,
        },
{
    let output: Option<&str> = match &args.output {
        Some(path) => Some(path.as_str()),
        None => None,
    };
    match args.format {
        Format::Json => Some(SinkPlan::Json(OutputTarget::from(output))),
        Format::Csv => Some(SinkPlan::Csv(OutputTarget::from(output))),
        Format::Parquet => match output {
            Some(path) => Some(SinkPlan::Parquet(path)),
            None => None,
        },
    }
}

/// How many empty polls in a row end a dump.
pub const MAX_MISS_CNT: usize = 1000;

/// After an empty poll: the new count of empty polls in a row, and whether the dump
/// gives up waiting.
pub fn after_miss(miss_cnt: usize) -> (r: (usize, bool))
    requires
        miss_cnt < MAX_MISS_CNT,
    ensures
        r.0 == miss_cnt + 1,
        r.1 == (miss_cnt + 1 >= MAX_MISS_CNT),
{
    let next = miss_cnt + 1;
    (next, next >= MAX_MISS_CNT)
}

/// What one poll of the channel gave the dump.
#[derive(Debug, Clone, Copy, PartialEq, Eq, Structural)]
pub enum PollOutcome {
    /// An item, written to the sink successfully.
    Written,
    /// An item the sink failed to write.
    WriteFailed,
    /// The channel was empty.
    Empty,
    /// Reading the channel failed.
    ReadFailed,
}

/// What the dump does after a poll.
#[derive(Debug, Clone, Copy, PartialEq, Eq, Structural)]
pub enum DumpAction {
    /// Poll again at once.
    Continue,
    /// Sleep briefly, then poll again.
    Sleep,
    /// Sleep briefly, then stop: nothing new for too long.
    SleepThenStop,
    /// Stop at once: an error.
    Stop,
}

/// One step of the dump loop: an item resets the count of empty polls; an empty poll
/// sleeps and counts, and `MAX_MISS_CNT` of them in a row end the dump; any failure
/// ends it at once. Returns the new count and the action.
pub fn dump_step(miss_cnt: usize, poll: PollOutcome) -> (r: (usize, DumpAction))
    ensures
        poll == PollOutcome::Written ==> r == (0usize, DumpAction::Continue),
        poll == PollOutcome::WriteFailed ==> r == (0usize, DumpAction::Stop),
        poll == PollOutcome::ReadFailed ==> r == (miss_cnt, DumpAction::Stop),
        poll == PollOutcome::Empty && miss_cnt + 1 < MAX_MISS_CNT ==> r == (
            (miss_cnt + 1) as usize,
            DumpAction::Sleep,
        ),
        poll == PollOutcome::Empty && miss_cnt + 1 >= MAX_MISS_CNT ==> r.1 == DumpAction::SleepThenStop
            && r.0 == (if miss_cnt < MAX_MISS_CNT { (miss_cnt + 1) as usize } else { miss_cnt }),
{
    match poll {
        PollOutcome::Written => (0, DumpAction::Continue),
        PollOutcome::WriteFailed => (0, DumpAction::Stop),
        PollOutcome::ReadFailed => (miss_cnt, DumpAction::Stop),
        PollOutcome::Empty => {
            if miss_cnt >= MAX_MISS_CNT {
                return (miss_cnt, DumpAction::SleepThenStop);
            }
            let (count, give_up) = after_miss(miss_cnt);
            (count, if give_up { DumpAction::SleepThenStop } else { DumpAction::Sleep })
        },
    }
}

} // verus!
