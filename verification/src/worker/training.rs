//! One training run: where its inputs and outputs live, the command line of
//! the training executable, the log it leaves and the metrics it reports.

use crate::error::{ClientError, ErrorKind};
use crate::ident::{hyphenated, hyphenated_text, TaskId};
use crate::json::{json_member, read_member, JsonMember, JsonMemberView};
use crate::storage::cache::{entry_path, CacheManager, Partition};
use crate::storage::ipfs::IpfsClient;
use crate::text::{
    after_last, decimal, i32_to_decimal, joined, last_segment, signed_decimal, skip_chars,
    starts_with, texts, u64_to_decimal,
};
use vstd::prelude::*;
use vstd::string::*;

verus! {

/// Hyperparameters of a training run.
#[derive(Debug)]
pub struct TrainingConfig {
    /// Number of passes over the dataset.
    pub epochs: u32,
    /// Number of samples per step.
    pub batch_size: u32,
    /// Learning rate, as the decimal text handed to the training
    /// executable.
    pub learning_rate: String,
}

/// A task to train: what to train on and how.
#[derive(Debug)]
pub struct TrainingTask {
    pub task_id: TaskId,
    /// Content identifier of the model.
    pub model_cid: String,
    /// Reference to the dataset: `ipfs://` and a content identifier, or the
    /// address of a file.
    pub dataset_url: String,
    pub config: TrainingConfig,
}

/// Metrics of a finished run. Loss and accuracy are held as the bit
/// patterns of their double-precision values; the pattern zero is the value
/// zero.
#[derive(Clone, Copy, Debug, PartialEq, Eq, Structural)]
pub struct TrainingMetrics {
    pub loss_bits: u64,
    pub accuracy_bits: u64,
    /// Wall-clock time of the training process, in whole seconds.
    pub duration_secs: u64,
}

/// What a successful run leaves behind.
#[derive(Debug)]
pub struct TrainingResult {
    /// Content identifier of the uploaded gradient artifact.
    pub gradient_cid: String,
    pub metrics: TrainingMetrics,
    /// Output of the training process, line by line, in the order read.
    pub logs: Vec<String>,
}

/// Where a dataset comes from.
#[derive(Debug)]
pub enum DatasetSource {
    /// The content-addressed store, under this content identifier.
    Content { cid: String },
    /// A plain address; the artifact is cached under this file name.
    Http { file_name: String },
}

/// The scheme of a content-addressed dataset reference.
pub open spec fn content_scheme() -> Seq<char> {
    "ipfs://"@
}

/// Whether a dataset reference names content in the store.
pub open spec fn is_content_reference(url: Seq<char>) -> bool {
    content_scheme().is_prefix_of(url)
}

/// The key under which the dataset `url` is cached: the content identifier
/// behind the scheme, or else the part of the address behind its last
/// slash.
pub open spec fn dataset_key(url: Seq<char>) -> Seq<char> {
    if is_content_reference(url) {
        url.skip(content_scheme().len() as int)
    } else {
        after_last(url, '/')
    }
}

/// Reads a dataset reference.
pub fn dataset_source(url: &str) -> (r: DatasetSource)
    ensures
        is_content_reference(url@) ==> (r matches DatasetSource::Content { cid } && cid@
            == dataset_key(url@)),
        !is_content_reference(url@) ==> (r matches DatasetSource::Http { file_name } && file_name@
            == dataset_key(url@)),
{
    let scheme = "ipfs://";
    if starts_with(url, scheme) {
        let cid = skip_chars(url, scheme.unicode_len());
        DatasetSource::Content { cid: String::from_str(cid) }
    } else {
        DatasetSource::Http { file_name: String::from_str(last_segment(url, '/')) }
    }
}

/// The text that marks a log line as read from standard error.
pub open spec fn error_tag() -> Seq<char> {
    "ERROR: "@
}

/// What the reader of the training process's output saw.
#[derive(Debug)]
pub enum StreamEvent {
    /// A line of standard output.
    Stdout(String),
    /// A line of standard error.
    Stderr(String),
    /// Standard output ended or could not be read.
    StdoutClosed,
    /// Standard error ended or could not be read.
    StderrClosed,
}

/// Which streams of the training process are still to be read.
#[derive(Clone, Copy, Debug, PartialEq, Eq, Structural)]
pub struct Streams {
    pub stdout_open: bool,
    pub stderr_open: bool,
}

/// The streams of a process that has just started: both are open.
pub open spec fn both_open() -> Streams {
    Streams { stdout_open: true, stderr_open: true }
}

/// Whether a stream is left to read.
pub open spec fn reading(streams: Streams) -> bool {
    streams.stdout_open || streams.stderr_open
}

/// The streams after `event`: a stream that has ended is closed.
pub open spec fn streams_after(streams: Streams, event: StreamEvent) -> Streams {
    match event {
        StreamEvent::StdoutClosed => Streams { stdout_open: false, ..streams },
        StreamEvent::StderrClosed => Streams { stderr_open: false, ..streams },
        _ => streams,
    }
}

/// The log after `event`: a line of standard output is added as it is, a
/// line of standard error with the tag in front of it.
pub open spec fn log_after(log: Seq<Seq<char>>, event: StreamEvent) -> Seq<Seq<char>> {
    match event {
        StreamEvent::Stdout(line) => log.push(line@),
        StreamEvent::Stderr(line) => log.push(error_tag() + line@),
        StreamEvent::StdoutClosed => log,
        StreamEvent::StderrClosed => log,
    }
}

impl Streams {
    /// The streams of a process that has just started.
    pub fn new() -> (r: Self)
        ensures
            r == both_open(),
    {
        Streams { stdout_open: true, stderr_open: true }
    }

    /// Whether a stream is left to read.
    pub fn reading(&self) -> (r: bool)
        ensures
            r == reading(*self),
    {
        self.stdout_open || self.stderr_open
    }
}

/// Records one event of the process's output and says whether to go on
/// reading. A line is added to `log`, tagged where it comes from standard
/// error; the end of a stream closes it in `streams`. Reading goes on
/// until both streams have ended.
pub fn record(streams: &mut Streams, log: &mut Vec<String>, event: StreamEvent) -> (more: bool)
    ensures
        *final(streams) == streams_after(*old(streams), event),
        texts(final(log)@) == log_after(texts(old(log)@), event),
        more == reading(*final(streams)),
{
    let ghost before = log@;
    match event {
        StreamEvent::Stdout(line) => {
            log.push(line);
            assert(texts(log@) =~= texts(before).push(line@));
        },
        StreamEvent::Stderr(line) => {
            let tagged = joined("ERROR: ", line.as_str());
            log.push(tagged);
            assert(texts(log@) =~= texts(before).push(error_tag() + line@));
        },
        StreamEvent::StdoutClosed => {
            streams.stdout_open = false;
        },
        StreamEvent::StderrClosed => {
            streams.stderr_open = false;
        },
    }
    streams.reading()
}

/// The lines of standard output among `events`, in order.
pub open spec fn stdout_of(events: Seq<StreamEvent>) -> Seq<Seq<char>>
    decreases events.len(),
{
    if events.len() == 0 {
        Seq::empty()
    } else {
        match events.last() {
            StreamEvent::Stdout(line) => stdout_of(events.drop_last()).push(line@),
            _ => stdout_of(events.drop_last()),
        }
    }
}

/// The lines of standard error among `events`, in order.
pub open spec fn stderr_of(events: Seq<StreamEvent>) -> Seq<Seq<char>>
    decreases events.len(),
{
    if events.len() == 0 {
        Seq::empty()
    } else {
        match events.last() {
            StreamEvent::Stderr(line) => stderr_of(events.drop_last()).push(line@),
            _ => stderr_of(events.drop_last()),
        }
    }
}

/// `lines`, each with the tag of standard error in front of it.
pub open spec fn tagged(lines: Seq<Seq<char>>) -> Seq<Seq<char>> {
    lines.map_values(|line: Seq<char>| error_tag() + line)
}

/// The log that `events` leave, from an empty log.
pub open spec fn log_of(events: Seq<StreamEvent>) -> Seq<Seq<char>>
    decreases events.len(),
{
    if events.len() == 0 {
        Seq::empty()
    } else {
        log_after(log_of(events.drop_last()), events.last())
    }
}

/// The streams that `events` leave open, from both open.
pub open spec fn streams_of(events: Seq<StreamEvent>) -> Streams
    decreases events.len(),
{
    if events.len() == 0 {
        both_open()
    } else {
        streams_after(streams_of(events.drop_last()), events.last())
    }
}

/// Whether `log` is made of the entries of `first` and the entries of
/// `second` and of nothing else, each of the two in its own order.
pub open spec fn merges(log: Seq<Seq<char>>, first: Seq<Seq<char>>, second: Seq<Seq<char>>) -> bool
    decreases log.len(),
{
    if log.len() == 0 {
        first.len() == 0 && second.len() == 0
    } else {
        ||| (first.len() > 0 && log.last() == first.last() && merges(
            log.drop_last(),
            first.drop_last(),
            second,
        ))
        ||| (second.len() > 0 && log.last() == second.last() && merges(
            log.drop_last(),
            first,
            second.drop_last(),
        ))
    }
}

/// A log made of two sequences has as many entries as the two together.
pub proof fn lemma_merges_len(log: Seq<Seq<char>>, first: Seq<Seq<char>>, second: Seq<Seq<char>>)
    requires
        merges(log, first, second),
    ensures
        log.len() == first.len() + second.len(),
    decreases log.len(),
{
    if log.len() > 0 {
        if first.len() > 0 && log.last() == first.last() && merges(
            log.drop_last(),
            first.drop_last(),
            second,
        ) {
            lemma_merges_len(log.drop_last(), first.drop_last(), second);
        } else {
            lemma_merges_len(log.drop_last(), first, second.drop_last());
        }
    }
}

/// However the lines of the two streams arrive, the log holds every line
/// of standard output as it is and every line of standard error with the
/// tag in front of it, the lines of each stream in their order; no line is
/// lost and none is there twice.
pub proof fn lemma_log_holds_both_streams(events: Seq<StreamEvent>)
    ensures
        merges(log_of(events), stdout_of(events), tagged(stderr_of(events))),
        log_of(events).len() == stdout_of(events).len() + stderr_of(events).len(),
    decreases events.len(),
{
    if events.len() > 0 {
        let earlier = events.drop_last();
        lemma_log_holds_both_streams(earlier);
        let log = log_of(earlier);
        let out = stdout_of(earlier);
        let err = stderr_of(earlier);
        match events.last() {
            StreamEvent::Stdout(line) => {
                assert(log.push(line@).drop_last() =~= log);
                assert(out.push(line@).drop_last() =~= out);
            },
            StreamEvent::Stderr(line) => {
                let entry = error_tag() + line@;
                assert(tagged(err.push(line@)) =~= tagged(err).push(entry));
                assert(log.push(entry).drop_last() =~= log);
                assert(tagged(err).push(entry).drop_last() =~= tagged(err));
            },
            _ => {},
        }
    }
    assert(tagged(stderr_of(events)).len() == stderr_of(events).len());
    lemma_merges_len(log_of(events), stdout_of(events), tagged(stderr_of(events)));
}

/// Whether standard output has ended among `events`.
pub open spec fn stdout_ended(events: Seq<StreamEvent>) -> bool {
    exists|i: int| 0 <= i < events.len() && #[trigger] events[i] is StdoutClosed
}

/// Whether standard error has ended among `events`.
pub open spec fn stderr_ended(events: Seq<StreamEvent>) -> bool {
    exists|i: int| 0 <= i < events.len() && #[trigger] events[i] is StderrClosed
}

/// Reading goes on exactly until both streams have ended: the end of one
/// stream alone does not end it.
pub proof fn lemma_reading_ends_with_both_streams(events: Seq<StreamEvent>)
    ensures
        streams_of(events).stdout_open == !stdout_ended(events),
        streams_of(events).stderr_open == !stderr_ended(events),
        reading(streams_of(events)) == !(stdout_ended(events) && stderr_ended(events)),
    decreases events.len(),
{
    if events.len() > 0 {
        let earlier = events.drop_last();
        lemma_reading_ends_with_both_streams(earlier);
        if stdout_ended(earlier) {
            let i = choose|i: int| 0 <= i < earlier.len() && #[trigger] earlier[i] is StdoutClosed;
            assert(events[i] is StdoutClosed);
        }
        if stderr_ended(earlier) {
            let i = choose|i: int| 0 <= i < earlier.len() && #[trigger] earlier[i] is StderrClosed;
            assert(events[i] is StderrClosed);
        }
        if stdout_ended(events) {
            let i = choose|i: int| 0 <= i < events.len() && #[trigger] events[i] is StdoutClosed;
            if i < earlier.len() {
                assert(earlier[i] is StdoutClosed);
            }
        }
        if stderr_ended(events) {
            let i = choose|i: int| 0 <= i < events.len() && #[trigger] events[i] is StderrClosed;
            if i < earlier.len() {
                assert(earlier[i] is StderrClosed);
            }
        }
        if events.last() is StdoutClosed {
            assert(events[events.len() - 1] is StdoutClosed);
        }
        if events.last() is StderrClosed {
            assert(events[events.len() - 1] is StderrClosed);
        }
    }
}

/// How an exit code is shown in an error.
pub open spec fn exit_code_text(code: Option<i32>) -> Seq<char> {
    match code {
        Some(c) => "Some("@ + signed_decimal(c as int) + ")"@,
        None => "None"@,
    }
}

/// The detail of the error of a training process that ended with `code`.
pub open spec fn exit_failure_detail(code: Option<i32>) -> Seq<char> {
    "Training script failed with exit code: "@ + exit_code_text(code)
}

/// Accepts the end of the training process where it exited with code zero.
/// Any other code, and an end without a code, is a training error.
pub fn check_exit(code: Option<i32>) -> (r: Result<(), ClientError>)
    ensures
        code == Some(0i32) ==> r is Ok,
        code != Some(0i32) ==> (r matches Err(e) && e@ == (
            ErrorKind::Training,
            exit_failure_detail(code),
        )),
{
    let shown = match code {
        Some(0) => {
            return Ok(());
        },
        Some(c) => {
            let mut shown = joined("Some(", i32_to_decimal(c).as_str());
            shown.append(")");
            shown
        },
        None => String::from_str("None"),
    };
    Err(ClientError::Training(joined("Training script failed with exit code: ", shown.as_str())))
}

/// The metrics of a run that reported none.
pub open spec fn zero_metrics() -> TrainingMetrics {
    TrainingMetrics { loss_bits: 0, accuracy_bits: 0, duration_secs: 0 }
}

/// The value of a metric from the member of the metrics record that should
/// hold it: the number, or zero where there is none.
pub open spec fn metric_bits(member: Result<JsonMemberView, Seq<char>>) -> u64 {
    match member {
        Ok(JsonMemberView::Number(bits)) => bits,
        _ => 0,
    }
}

/// The metrics that the record `content` reports; `None` stands for a
/// missing record.
pub open spec fn metrics_of(content: Option<Seq<char>>) -> TrainingMetrics {
    match content {
        None => zero_metrics(),
        Some(text) => TrainingMetrics {
            loss_bits: metric_bits(json_member(text, "loss"@)),
            accuracy_bits: metric_bits(json_member(text, "accuracy"@)),
            duration_secs: 0,
        },
    }
}

/// The value of a metric from the member that should hold it.
pub fn metric_from_member(member: Result<JsonMember, String>) -> (bits: u64)
    ensures
        bits == metric_bits(
            match member {
                Ok(m) => Ok(m@),
                Err(e) => Err(e@),
            },
        ),
{
    match member {
        Ok(JsonMember::Number(bits)) => bits,
        _ => 0,
    }
}

/// Reads the metrics record of a run. `content` is the text of the record,
/// `None` where the run wrote none. A missing record, a record that is no
/// JSON document and a missing or non-numeric member all count as zero.
/// The duration is left at zero.
pub fn parse_metrics(content: Option<&str>) -> (m: TrainingMetrics)
    ensures
        m == metrics_of(
            match content {
                Some(text) => Some(text@),
                None => None,
            },
        ),
{
    match content {
        None => TrainingMetrics { loss_bits: 0, accuracy_bits: 0, duration_secs: 0 },
        Some(text) => TrainingMetrics {
            loss_bits: metric_from_member(read_member(text, "loss")),
            accuracy_bits: metric_from_member(read_member(text, "accuracy")),
            duration_secs: 0,
        },
    }
}

/// How the training process ended, as the caller saw it.
#[derive(Debug)]
pub enum ProcessEnd {
    /// The process could not be started; the message of the cause.
    SpawnFailed(String),
    /// The standard output of the process could not be captured.
    StdoutUnavailable,
    /// The standard error of the process could not be captured.
    StderrUnavailable,
    /// Waiting for the process failed; the message of the cause.
    WaitFailed(String),
    /// The process ended, with this exit code if it has one.
    Exited(Option<i32>),
}

/// The error that `end` stands for; `None` where the process exited with
/// code zero.
pub open spec fn process_error(end: ProcessEnd) -> Option<(ErrorKind, Seq<char>)> {
    match end {
        ProcessEnd::SpawnFailed(cause) => Some(
            (ErrorKind::Training, "Failed to spawn Python process: "@ + cause@),
        ),
        ProcessEnd::StdoutUnavailable => Some((ErrorKind::Training, "Failed to capture stdout"@)),
        ProcessEnd::StderrUnavailable => Some((ErrorKind::Training, "Failed to capture stderr"@)),
        ProcessEnd::WaitFailed(cause) => Some(
            (ErrorKind::Training, "Failed to wait for process: "@ + cause@),
        ),
        ProcessEnd::Exited(code) => if code == Some(0i32) {
            None
        } else {
            Some((ErrorKind::Training, exit_failure_detail(code)))
        },
    }
}

/// Accepts the end of the training process where it exited with code zero;
/// every other end is a training error and is not retried.
pub fn check_process(end: ProcessEnd) -> (r: Result<(), ClientError>)
    ensures
        match r {
            Ok(_) => process_error(end) is None,
            Err(e) => process_error(end) == Some(e@),
        },
{
    match end {
        ProcessEnd::SpawnFailed(cause) => Err(
            ClientError::Training(joined("Failed to spawn Python process: ", cause.as_str())),
        ),
        ProcessEnd::StdoutUnavailable => Err(
            ClientError::Training(String::from_str("Failed to capture stdout")),
        ),
        ProcessEnd::StderrUnavailable => Err(
            ClientError::Training(String::from_str("Failed to capture stderr")),
        ),
        ProcessEnd::WaitFailed(cause) => Err(
            ClientError::Training(joined("Failed to wait for process: ", cause.as_str())),
        ),
        ProcessEnd::Exited(code) => check_exit(code),
    }
}

/// The arguments of the training executable: the script, then one flag
/// with its value for the model, the dataset, the output directory and each
/// hyperparameter.
pub open spec fn training_args(
    script: Seq<char>,
    model: Seq<char>,
    dataset: Seq<char>,
    output: Seq<char>,
    config: TrainingConfig,
) -> Seq<Seq<char>> {
    seq![
        script,
        "--model"@,
        model,
        "--dataset"@,
        dataset,
        "--output"@,
        output,
        "--epochs"@,
        decimal(config.epochs as nat),
        "--batch-size"@,
        decimal(config.batch_size as nat),
        "--learning-rate"@,
        config.learning_rate@,
    ]
}

/// Builds the arguments of the training executable.
pub fn command_line(
    script: &str,
    model: &str,
    dataset: &str,
    output: &str,
    config: &TrainingConfig,
) -> (args: Vec<String>)
    ensures
        texts(args@) == training_args(script@, model@, dataset@, output@, *config),
{
    let mut args: Vec<String> = Vec::new();
    args.push(String::from_str(script));
    args.push(String::from_str("--model"));
    args.push(String::from_str(model));
    args.push(String::from_str("--dataset"));
    args.push(String::from_str(dataset));
    args.push(String::from_str("--output"));
    args.push(String::from_str(output));
    args.push(String::from_str("--epochs"));
    args.push(u64_to_decimal(config.epochs as u64));
    args.push(String::from_str("--batch-size"));
    args.push(u64_to_decimal(config.batch_size as u64));
    args.push(String::from_str("--learning-rate"));
    args.push(config.learning_rate.clone());
    assert(texts(args@) =~= training_args(script@, model@, dataset@, output@, *config));
    args
}

/// Runs training tasks: resolves the inputs through the cache, runs the
/// training executable and uploads what it produced.
///
/// The executor performs no I/O itself. `start` and `step` say what is to
/// be done next; the caller does it and reports back.
pub struct TrainingExecutor {
    ipfs: IpfsClient,
    cache: CacheManager,
    python_path: String,
    script_path: String,
}

/// A `TrainingExecutor` over mathematical text.
pub struct ExecutorView {
    /// Base directory of the cache.
    pub cache_dir: Seq<char>,
    /// Gateway of the content-addressed store.
    pub gateway: Seq<char>,
    /// The interpreter that runs the training script.
    pub python_path: Seq<char>,
    /// The training script.
    pub script_path: Seq<char>,
}

impl View for TrainingExecutor {
    type V = ExecutorView;

    closed spec fn view(&self) -> ExecutorView {
        ExecutorView {
            cache_dir: self.cache@,
            gateway: self.ipfs@,
            python_path: self.python_path@,
            script_path: self.script_path@,
        }
    }
}

/// Where the model of `task` is cached.
pub open spec fn model_dest(cache_dir: Seq<char>, task: TrainingTask) -> Seq<char> {
    entry_path(cache_dir, Partition::Models, task.model_cid@)
}

/// Where the dataset of `task` is cached.
pub open spec fn dataset_dest(cache_dir: Seq<char>, task: TrainingTask) -> Seq<char> {
    entry_path(cache_dir, Partition::Datasets, dataset_key(task.dataset_url@))
}

/// The output directory of `task`: named by the canonical text of its
/// identifier.
pub open spec fn output_dir(cache_dir: Seq<char>, task: TrainingTask) -> Seq<char> {
    entry_path(cache_dir, Partition::Outputs, hyphenated_text(task.task_id))
}

/// Where the training executable writes the gradient artifact of `task`.
pub open spec fn gradient_path(cache_dir: Seq<char>, task: TrainingTask) -> Seq<char> {
    output_dir(cache_dir, task) + "/gradients.pt"@
}

/// Where the training executable writes the metrics record of `task`.
pub open spec fn metrics_path(cache_dir: Seq<char>, task: TrainingTask) -> Seq<char> {
    output_dir(cache_dir, task) + "/metrics.json"@
}

/// The output directory of a task lies directly in the partition of
/// outputs, under the canonical text of the task's identifier; a dataset
/// that comes from a plain address is cached directly in the partition of
/// datasets, under the last segment of the address.
pub proof fn lemma_paths_lie_in_partitions(cache_dir: Seq<char>, task: TrainingTask)
    ensures
        after_last(output_dir(cache_dir, task), '/') == hyphenated_text(task.task_id),
        !is_content_reference(task.dataset_url@) ==> after_last(
            dataset_dest(cache_dir, task),
            '/',
        ) == after_last(task.dataset_url@, '/'),
{
    crate::ident::lemma_hyphenated_shape(task.task_id);
    crate::storage::cache::lemma_entry_lies_in_partition(
        cache_dir,
        Partition::Outputs,
        hyphenated_text(task.task_id),
    );
    if !is_content_reference(task.dataset_url@) {
        crate::text::lemma_after_last(task.dataset_url@, '/');
        crate::storage::cache::lemma_entry_lies_in_partition(
            cache_dir,
            Partition::Datasets,
            after_last(task.dataset_url@, '/'),
        );
    }
}

/// How far a run has come: what the executor is waiting for.
#[derive(Clone, Copy, Debug, PartialEq, Eq, Structural)]
pub enum Stage {
    /// The partitions of the cache are being created.
    InitCache,
    /// The cache is being asked for the model.
    CheckModel,
    /// The model is being downloaded.
    FetchModel,
    /// The cache is being asked for the dataset.
    CheckDataset,
    /// The dataset is being downloaded.
    FetchDataset,
    /// The output directory is being created.
    PrepareOutput,
    /// The training script is being looked for.
    CheckScript,
    /// The training process is running.
    Train,
    /// The metrics record is being read.
    ReadMetrics,
    /// The gradient artifact is being uploaded.
    Upload,
    /// The run is over.
    Finished,
}

/// The state of a run.
#[derive(Debug)]
pub struct TrainingRun {
    pub stage: Stage,
    /// Output of the training process; empty until it has ended.
    pub logs: Vec<String>,
    /// Metrics gathered so far; zero until known.
    pub metrics: TrainingMetrics,
}

/// A run over mathematical text.
pub struct RunView {
    pub stage: Stage,
    pub logs: Seq<Seq<char>>,
    pub metrics: TrainingMetrics,
}

impl View for TrainingRun {
    type V = RunView;

    open spec fn view(&self) -> RunView {
        RunView { stage: self.stage, logs: texts(self.logs@), metrics: self.metrics }
    }
}

/// A result over mathematical text.
pub struct ResultView {
    pub gradient_cid: Seq<char>,
    pub metrics: TrainingMetrics,
    pub logs: Seq<Seq<char>>,
}

impl View for TrainingResult {
    type V = ResultView;

    open spec fn view(&self) -> ResultView {
        ResultView {
            gradient_cid: self.gradient_cid@,
            metrics: self.metrics,
            logs: texts(self.logs@),
        }
    }
}

/// How a run ended.
#[derive(Debug)]
pub enum Outcome {
    /// Training succeeded and the gradient artifact is uploaded.
    Completed(TrainingResult),
    /// A step failed; nothing was uploaded after it.
    Failed(ClientError),
    /// Shutdown was raised; the run stopped without a result.
    Aborted,
}

/// An outcome over mathematical text.
pub enum OutcomeView {
    Completed(ResultView),
    Failed((ErrorKind, Seq<char>)),
    Aborted,
}

impl View for Outcome {
    type V = OutcomeView;

    open spec fn view(&self) -> OutcomeView {
        match self {
            Outcome::Completed(r) => OutcomeView::Completed(r@),
            Outcome::Failed(e) => OutcomeView::Failed(e@),
            Outcome::Aborted => OutcomeView::Aborted,
        }
    }
}

/// What the caller is to do next for a run.
#[derive(Debug)]
pub enum Request {
    /// Create these directories, with their parents.
    InitCache { dirs: Vec<String> },
    /// Say whether this path exists.
    Exists { path: String },
    /// Download this content from the store to `dest`, with the fetcher's
    /// retries.
    Download { cid: String, dest: String },
    /// Download this address to `dest`, once.
    DownloadUrl { url: String, dest: String },
    /// Create this directory, with its parents.
    CreateDir { path: String },
    /// Run this program with these arguments, collect its output and time
    /// it.
    Run { program: String, args: Vec<String> },
    /// Read this file as text, if it exists.
    ReadMetrics { path: String },
    /// Upload this file to the store.
    Upload { path: String },
    /// Nothing more: the run ended like this.
    Finish(Outcome),
}

/// A request over mathematical text.
pub enum RequestView {
    InitCache { dirs: Seq<Seq<char>> },
    Exists { path: Seq<char> },
    Download { cid: Seq<char>, dest: Seq<char> },
    DownloadUrl { url: Seq<char>, dest: Seq<char> },
    CreateDir { path: Seq<char> },
    Run { program: Seq<char>, args: Seq<Seq<char>> },
    ReadMetrics { path: Seq<char> },
    Upload { path: Seq<char> },
    Finish(OutcomeView),
}

impl View for Request {
    type V = RequestView;

    open spec fn view(&self) -> RequestView {
        match self {
            Request::InitCache { dirs } => RequestView::InitCache { dirs: texts(dirs@) },
            Request::Exists { path } => RequestView::Exists { path: path@ },
            Request::Download { cid, dest } => RequestView::Download { cid: cid@, dest: dest@ },
            Request::DownloadUrl { url, dest } => RequestView::DownloadUrl {
                url: url@,
                dest: dest@,
            },
            Request::CreateDir { path } => RequestView::CreateDir { path: path@ },
            Request::Run { program, args } => RequestView::Run {
                program: program@,
                args: texts(args@),
            },
            Request::ReadMetrics { path } => RequestView::ReadMetrics { path: path@ },
            Request::Upload { path } => RequestView::Upload { path: path@ },
            Request::Finish(outcome) => RequestView::Finish(outcome@),
        }
    }
}

/// What the caller reports back.
#[derive(Debug)]
pub enum Response {
    /// The directories are created, or the download is done; or not.
    Done(Result<(), ClientError>),
    /// Shutdown was raised while a download waited for its next try.
    Aborted,
    /// Whether the path exists.
    Present(bool),
    /// The training process ended: how, what it printed and how long it
    /// took by the caller's clock, in whole seconds.
    Process { end: ProcessEnd, logs: Vec<String>, duration_secs: u64 },
    /// The text of the metrics record; `None` where there is none.
    Metrics(Option<String>),
    /// The content identifier of the uploaded file; or not.
    Uploaded(Result<String, ClientError>),
}

/// The detail of the error of a response that does not answer the pending
/// request.
pub open spec fn protocol_detail() -> Seq<char> {
    "response does not answer the pending request"@
}

/// The detail of the error of a missing training script.
pub open spec fn missing_script_detail() -> Seq<char> {
    "Training script not found. Please ensure python/train.py exists."@
}

/// The three partition directories below `cache_dir`.
pub open spec fn partition_dirs(cache_dir: Seq<char>) -> Seq<Seq<char>> {
    seq![
        crate::storage::cache::partition_dir(cache_dir, Partition::Models),
        crate::storage::cache::partition_dir(cache_dir, Partition::Datasets),
        crate::storage::cache::partition_dir(cache_dir, Partition::Outputs),
    ]
}

/// The request that fetches the dataset of `task`.
pub open spec fn dataset_request(exec: ExecutorView, task: TrainingTask) -> RequestView {
    if is_content_reference(task.dataset_url@) {
        RequestView::Download {
            cid: dataset_key(task.dataset_url@),
            dest: dataset_dest(exec.cache_dir, task),
        }
    } else {
        RequestView::DownloadUrl {
            url: task.dataset_url@,
            dest: dataset_dest(exec.cache_dir, task),
        }
    }
}

/// The request that runs the training executable for `task`.
pub open spec fn run_request(exec: ExecutorView, task: TrainingTask) -> RequestView {
    RequestView::Run {
        program: exec.python_path,
        args: training_args(
            exec.script_path,
            model_dest(exec.cache_dir, task),
            dataset_dest(exec.cache_dir, task),
            output_dir(exec.cache_dir, task),
            task.config,
        ),
    }
}

/// The run `pre` moved to `stage`.
pub open spec fn moved(pre: RunView, stage: Stage) -> RunView {
    RunView { stage, ..pre }
}

/// The end of the run `pre` with `outcome`: the log leaves the state.
pub open spec fn ended(pre: RunView, outcome: OutcomeView) -> (RunView, RequestView) {
    (
        RunView { stage: Stage::Finished, logs: Seq::empty(), metrics: pre.metrics },
        RequestView::Finish(outcome),
    )
}

/// The first state and request of a run.
pub open spec fn first(exec: ExecutorView) -> (RunView, RequestView) {
    (
        RunView { stage: Stage::InitCache, logs: Seq::empty(), metrics: zero_metrics() },
        RequestView::InitCache { dirs: partition_dirs(exec.cache_dir) },
    )
}

/// The state and the request that follow `response` in state `pre`.
///
/// The steps run in order and none is retried here: create the cache
/// partitions; take the model from the cache or download it; take the
/// dataset from the cache or download it; create the output directory; run
/// the training executable; read its metrics; upload the gradient artifact.
/// The first failure ends the run. A response that does not answer the
/// pending request ends it too.
pub open spec fn next(exec: ExecutorView, task: TrainingTask, pre: RunView, response: Response) -> (
    RunView,
    RequestView,
) {
    match (pre.stage, response) {
        (Stage::InitCache, Response::Done(Ok(_))) => (
            moved(pre, Stage::CheckModel),
            RequestView::Exists { path: model_dest(exec.cache_dir, task) },
        ),
        (Stage::CheckModel, Response::Present(false)) => (
            moved(pre, Stage::FetchModel),
            RequestView::Download {
                cid: task.model_cid@,
                dest: model_dest(exec.cache_dir, task),
            },
        ),
        (Stage::CheckModel, Response::Present(true))
        | (Stage::FetchModel, Response::Done(Ok(_))) => (
            moved(pre, Stage::CheckDataset),
            RequestView::Exists { path: dataset_dest(exec.cache_dir, task) },
        ),
        (Stage::CheckDataset, Response::Present(false)) => (
            moved(pre, Stage::FetchDataset),
            dataset_request(exec, task),
        ),
        (Stage::CheckDataset, Response::Present(true))
        | (Stage::FetchDataset, Response::Done(Ok(_))) => (
            moved(pre, Stage::PrepareOutput),
            RequestView::CreateDir { path: output_dir(exec.cache_dir, task) },
        ),
        (Stage::PrepareOutput, Response::Done(Ok(_))) => (
            moved(pre, Stage::CheckScript),
            RequestView::Exists { path: exec.script_path },
        ),
        (Stage::CheckScript, Response::Present(true)) => (
            moved(pre, Stage::Train),
            run_request(exec, task),
        ),
        (Stage::CheckScript, Response::Present(false)) => ended(
            pre,
            OutcomeView::Failed((ErrorKind::Training, missing_script_detail())),
        ),
        (Stage::Train, Response::Process { end, logs, duration_secs }) => match process_error(
            end,
        ) {
            Some(e) => ended(pre, OutcomeView::Failed(e)),
            None => (
                RunView {
                    stage: Stage::ReadMetrics,
                    logs: texts(logs@),
                    metrics: TrainingMetrics { duration_secs, ..pre.metrics },
                },
                RequestView::ReadMetrics { path: metrics_path(exec.cache_dir, task) },
            ),
        },
        (Stage::ReadMetrics, Response::Metrics(content)) => {
            let read = metrics_of(
                match content {
                    Some(text) => Some(text@),
                    None => None,
                },
            );
            (
                RunView {
                    stage: Stage::Upload,
                    logs: pre.logs,
                    metrics: TrainingMetrics {
                        duration_secs: pre.metrics.duration_secs,
                        ..read
                    },
                },
                RequestView::Upload { path: gradient_path(exec.cache_dir, task) },
            )
        },
        (Stage::Upload, Response::Uploaded(Ok(cid))) => ended(
            pre,
            OutcomeView::Completed(
                ResultView { gradient_cid: cid@, metrics: pre.metrics, logs: pre.logs },
            ),
        ),
        (Stage::Upload, Response::Uploaded(Err(e))) => ended(pre, OutcomeView::Failed(e@)),
        (Stage::InitCache, Response::Done(Err(e)))
        | (Stage::FetchModel, Response::Done(Err(e)))
        | (Stage::FetchDataset, Response::Done(Err(e)))
        | (Stage::PrepareOutput, Response::Done(Err(e))) => ended(pre, OutcomeView::Failed(e@)),
        (Stage::FetchModel, Response::Aborted) | (Stage::FetchDataset, Response::Aborted) => ended(
            pre,
            OutcomeView::Aborted,
        ),
        _ => ended(pre, OutcomeView::Failed((ErrorKind::Other, protocol_detail()))),
    }
}

/// The state of a run of `task` after the caller gave `responses`, in
/// order, from its start.
pub open spec fn state_after(
    exec: ExecutorView,
    task: TrainingTask,
    responses: Seq<Response>,
) -> RunView
    decreases responses.len(),
{
    if responses.len() == 0 {
        first(exec).0
    } else {
        next(exec, task, state_after(exec, task, responses.drop_last()), responses.last()).0
    }
}

/// The request that is pending after the caller gave `responses`.
pub open spec fn request_after(
    exec: ExecutorView,
    task: TrainingTask,
    responses: Seq<Response>,
) -> RequestView {
    if responses.len() == 0 {
        first(exec).1
    } else {
        next(exec, task, state_after(exec, task, responses.drop_last()), responses.last()).1
    }
}

/// The place of a stage in the order of a run.
pub open spec fn rank(stage: Stage) -> nat {
    match stage {
        Stage::InitCache => 0,
        Stage::CheckModel => 1,
        Stage::FetchModel => 2,
        Stage::CheckDataset => 3,
        Stage::FetchDataset => 4,
        Stage::PrepareOutput => 5,
        Stage::CheckScript => 6,
        Stage::Train => 7,
        Stage::ReadMetrics => 8,
        Stage::Upload => 9,
        Stage::Finished => 10,
    }
}

/// A step never leads back: it moves the run to a later stage, or leaves a
/// finished run finished. An upload is requested only by the step that
/// enters the upload stage, and a download only by a step that enters a
/// fetch stage.
pub proof fn lemma_step_moves_on(
    exec: ExecutorView,
    task: TrainingTask,
    pre: RunView,
    response: Response,
)
    ensures
        rank(next(exec, task, pre, response).0.stage) > rank(pre.stage) || (pre.stage
            == Stage::Finished && next(exec, task, pre, response).0.stage == Stage::Finished),
        next(exec, task, pre, response).1 is Upload ==> next(exec, task, pre, response).0.stage
            == Stage::Upload,
        next(exec, task, pre, response).1 is Download || next(exec, task, pre, response).1
            is DownloadUrl ==> next(exec, task, pre, response).0.stage == Stage::FetchModel
            || next(exec, task, pre, response).0.stage == Stage::FetchDataset,
        next(exec, task, pre, response).1 is Finish <==> next(exec, task, pre, response).0.stage
            == Stage::Finished,
{
}

/// Along a run the stage only grows: what was reached after `i` responses
/// is not later than what is reached after `j >= i`.
pub proof fn lemma_stages_grow(
    exec: ExecutorView,
    task: TrainingTask,
    responses: Seq<Response>,
    i: int,
    j: int,
)
    requires
        0 <= i <= j <= responses.len(),
    ensures
        rank(state_after(exec, task, responses.take(i)).stage) <= rank(
            state_after(exec, task, responses.take(j)).stage,
        ),
    decreases j - i,
{
    if i < j {
        lemma_stages_grow(exec, task, responses, i, j - 1);
        assert(responses.take(j).drop_last() =~= responses.take(j - 1));
        lemma_step_moves_on(
            exec,
            task,
            state_after(exec, task, responses.take(j - 1)),
            responses[j - 1],
        );
    }
}

/// A training process that does not exit with code zero fails the run with
/// a training error, and the run uploads nothing: neither before that
/// response nor after it is an upload requested.
pub proof fn lemma_failed_process_uploads_nothing(
    exec: ExecutorView,
    task: TrainingTask,
    responses: Seq<Response>,
    i: int,
    n: int,
)
    requires
        0 <= i < responses.len(),
        0 <= n <= responses.len(),
        state_after(exec, task, responses.take(i)).stage == Stage::Train,
        responses[i] is Process,
        process_error(responses[i]->end) is Some,
    ensures
        request_after(exec, task, responses.take(i + 1)) == RequestView::Finish(
            OutcomeView::Failed(process_error(responses[i]->end)->0),
        ),
        process_error(responses[i]->end) matches Some(e) && e.0 == ErrorKind::Training,
        !(request_after(exec, task, responses.take(n)) is Upload),
{
    assert(responses.take(i + 1).drop_last() =~= responses.take(i));
    assert(responses.take(i + 1).last() == responses[i]);
    let at_train = state_after(exec, task, responses.take(i));
    assert(state_after(exec, task, responses.take(i + 1)).stage == Stage::Finished);
    if n > 0 && request_after(exec, task, responses.take(n)) is Upload {
        let before = state_after(exec, task, responses.take(n - 1));
        assert(responses.take(n).drop_last() =~= responses.take(n - 1));
        lemma_step_moves_on(exec, task, before, responses.take(n).last());
        assert(state_after(exec, task, responses.take(n)).stage == Stage::Upload);
        if n <= i {
            lemma_stages_grow(exec, task, responses, n, i);
        } else {
            lemma_stages_grow(exec, task, responses, i + 1, n);
        }
    }
}

/// A run whose training process exits with code zero without leaving a
/// metrics record does not fail: it goes on to the upload with a loss and
/// an accuracy of zero, and a successful upload completes it with these
/// metrics, the measured duration and the log.
pub proof fn lemma_missing_metrics_are_zero(
    exec: ExecutorView,
    task: TrainingTask,
    pre: RunView,
    cid: String,
)
    requires
        pre.stage == Stage::ReadMetrics,
    ensures
        ({
            let read = next(exec, task, pre, Response::Metrics(None));
            let done = next(exec, task, read.0, Response::Uploaded(Ok(cid)));
            &&& read.1 == RequestView::Upload { path: gradient_path(exec.cache_dir, task) }
            &&& read.0.metrics.loss_bits == 0
            &&& read.0.metrics.accuracy_bits == 0
            &&& done.1 == RequestView::Finish(
                OutcomeView::Completed(
                    ResultView {
                        gradient_cid: cid@,
                        metrics: TrainingMetrics {
                            loss_bits: 0,
                            accuracy_bits: 0,
                            duration_secs: pre.metrics.duration_secs,
                        },
                        logs: pre.logs,
                    },
                ),
            )
        }),
{
}

/// An input that the cache holds is used as it is: the run goes on without
/// asking for a download. An input that the cache lacks is downloaded to
/// the path under which the cache will find it.
pub proof fn lemma_cached_inputs_are_not_fetched(
    exec: ExecutorView,
    task: TrainingTask,
    pre: RunView,
)
    requires
        pre.stage == Stage::CheckModel || pre.stage == Stage::CheckDataset,
    ensures
        !(next(exec, task, pre, Response::Present(true)).1 is Download),
        !(next(exec, task, pre, Response::Present(true)).1 is DownloadUrl),
        pre.stage == Stage::CheckModel ==> next(exec, task, pre, Response::Present(false)).1
            == (RequestView::Download {
            cid: task.model_cid@,
            dest: model_dest(exec.cache_dir, task),
        }),
        pre.stage == Stage::CheckDataset ==> next(exec, task, pre, Response::Present(false)).1
            == dataset_request(exec, task),
{
}

impl TrainingRun {
    /// This run at `stage`.
    fn at(self, stage: Stage) -> (r: Self)
        ensures
            r@ == moved(self@, stage),
    {
        TrainingRun { stage, logs: self.logs, metrics: self.metrics }
    }

    /// Ends this run with `outcome`.
    fn end(self, outcome: Outcome) -> (r: (Self, Request))
        ensures
            (r.0@, r.1@) == ended(self@, outcome@),
    {
        let done = TrainingRun { stage: Stage::Finished, logs: Vec::new(), metrics: self.metrics };
        assert(texts(done.logs@) =~= Seq::<Seq<char>>::empty());
        (done, Request::Finish(outcome))
    }

    /// Ends this run with `error`.
    fn fail(self, error: ClientError) -> (r: (Self, Request))
        ensures
            (r.0@, r.1@) == ended(self@, OutcomeView::Failed(error@)),
    {
        self.end(Outcome::Failed(error))
    }
}

impl TrainingExecutor {
    /// An executor with its cache below `cache_dir` and the store reached
    /// through `ipfs_gateway`, or the public gateway where none is given.
    /// The training script `python/train.py` is run by `python3` until
    /// `with_python` or `with_script` say otherwise.
    pub fn new(cache_dir: String, ipfs_gateway: Option<String>) -> (r: Result<Self, ClientError>)
        ensures
            r matches Ok(exec) && exec@ == (ExecutorView {
                cache_dir: cache_dir@,
                gateway: match ipfs_gateway {
                    Some(g) => g@,
                    None => crate::storage::ipfs::default_gateway(),
                },
                python_path: "python3"@,
                script_path: "python/train.py"@,
            }),
    {
        Ok(
            TrainingExecutor {
                ipfs: IpfsClient::new(ipfs_gateway),
                cache: CacheManager::new(cache_dir),
                python_path: String::from_str("python3"),
                script_path: String::from_str("python/train.py"),
            },
        )
    }

    /// This executor with `python_path` as the interpreter.
    pub fn with_python(self, python_path: String) -> (r: Self)
        ensures
            r@ == (ExecutorView { python_path: python_path@, ..self@ }),
    {
        TrainingExecutor {
            ipfs: self.ipfs,
            cache: self.cache,
            python_path,
            script_path: self.script_path,
        }
    }

    /// This executor with `script_path` as the training script.
    pub fn with_script(self, script_path: String) -> (r: Self)
        ensures
            r@ == (ExecutorView { script_path: script_path@, ..self@ }),
    {
        TrainingExecutor {
            ipfs: self.ipfs,
            cache: self.cache,
            python_path: self.python_path,
            script_path,
        }
    }

    /// The cache of this executor.
    pub fn cache(&self) -> (r: &CacheManager)
        ensures
            r@ == self@.cache_dir,
    {
        &self.cache
    }

    /// The store client of this executor.
    pub fn ipfs(&self) -> (r: &IpfsClient)
        ensures
            r@ == self@.gateway,
    {
        &self.ipfs
    }

    /// Where the model of `task` is cached.
    pub fn model_path(&self, task: &TrainingTask) -> (r: String)
        ensures
            r@ == model_dest(self@.cache_dir, *task),
    {
        self.cache.model_path(task.model_cid.as_str())
    }

    /// Where the dataset of `task` is cached.
    pub fn dataset_path(&self, task: &TrainingTask) -> (r: String)
        ensures
            r@ == dataset_dest(self@.cache_dir, *task),
    {
        match dataset_source(task.dataset_url.as_str()) {
            DatasetSource::Content { cid } => self.cache.dataset_path(cid.as_str()),
            DatasetSource::Http { file_name } => self.cache.dataset_path(file_name.as_str()),
        }
    }

    /// The output directory of `task`.
    pub fn output_path(&self, task: &TrainingTask) -> (r: String)
        ensures
            r@ == output_dir(self@.cache_dir, *task),
    {
        self.cache.output_path(hyphenated(task.task_id).as_str())
    }

    /// The request that fetches the dataset of `task`.
    fn fetch_dataset(&self, task: &TrainingTask) -> (r: Request)
        ensures
            r@ == dataset_request(self@, *task),
    {
        let dest = self.dataset_path(task);
        match dataset_source(task.dataset_url.as_str()) {
            DatasetSource::Content { cid } => Request::Download { cid, dest },
            DatasetSource::Http { .. } => Request::DownloadUrl {
                url: task.dataset_url.clone(),
                dest,
            },
        }
    }

    /// The request that runs the training executable for `task`.
    fn run_training(&self, task: &TrainingTask) -> (r: Request)
        ensures
            r@ == run_request(self@, *task),
    {
        let model = self.model_path(task);
        let dataset = self.dataset_path(task);
        let output = self.output_path(task);
        Request::Run {
            program: self.python_path.clone(),
            args: command_line(
                self.script_path.as_str(),
                model.as_str(),
                dataset.as_str(),
                output.as_str(),
                &task.config,
            ),
        }
    }

    /// Begins a run: the first thing to do is to create the partitions of
    /// the cache.
    pub fn start(&self) -> (r: (TrainingRun, Request))
        ensures
            (r.0@, r.1@) == first(self@),
    {
        let mut dirs: Vec<String> = Vec::new();
        dirs.push(self.cache.partition_path(Partition::Models));
        dirs.push(self.cache.partition_path(Partition::Datasets));
        dirs.push(self.cache.partition_path(Partition::Outputs));
        assert(texts(dirs@) =~= partition_dirs(self@.cache_dir));
        let run = TrainingRun {
            stage: Stage::InitCache,
            logs: Vec::new(),
            metrics: TrainingMetrics { loss_bits: 0, accuracy_bits: 0, duration_secs: 0 },
        };
        assert(texts(run.logs@) =~= Seq::<Seq<char>>::empty());
        (run, Request::InitCache { dirs })
    }

    /// Continues the run `run` of `task` with the caller's `response` to
    /// the pending request: the new state and the next request.
    pub fn step(&self, task: &TrainingTask, run: TrainingRun, response: Response) -> (r: (
        TrainingRun,
        Request,
    ))
        ensures
            (r.0@, r.1@) == next(self@, *task, run@, response),
    {
        match (run.stage, response) {
            (Stage::InitCache, Response::Done(Ok(_))) => (
                run.at(Stage::CheckModel),
                Request::Exists { path: self.model_path(task) },
            ),
            (Stage::CheckModel, Response::Present(false)) => (
                run.at(Stage::FetchModel),
                Request::Download { cid: task.model_cid.clone(), dest: self.model_path(task) },
            ),
            (Stage::CheckModel, Response::Present(true))
            | (Stage::FetchModel, Response::Done(Ok(_))) => (
                run.at(Stage::CheckDataset),
                Request::Exists { path: self.dataset_path(task) },
            ),
            (Stage::CheckDataset, Response::Present(false)) => (
                run.at(Stage::FetchDataset),
                self.fetch_dataset(task),
            ),
            (Stage::CheckDataset, Response::Present(true))
            | (Stage::FetchDataset, Response::Done(Ok(_))) => (
                run.at(Stage::PrepareOutput),
                Request::CreateDir { path: self.output_path(task) },
            ),
            (Stage::PrepareOutput, Response::Done(Ok(_))) => (
                run.at(Stage::CheckScript),
                Request::Exists { path: self.script_path.clone() },
            ),
            (Stage::CheckScript, Response::Present(true)) => (
                run.at(Stage::Train),
                self.run_training(task),
            ),
            (Stage::CheckScript, Response::Present(false)) => run.fail(
                ClientError::Training(
                    String::from_str(
                        "Training script not found. Please ensure python/train.py exists.",
                    ),
                ),
            ),
            (Stage::Train, Response::Process { end, logs, duration_secs }) => {
                match check_process(end) {
                    Err(e) => run.fail(e),
                    Ok(_) => {
                        let metrics = TrainingMetrics {
                            loss_bits: run.metrics.loss_bits,
                            accuracy_bits: run.metrics.accuracy_bits,
                            duration_secs,
                        };
                        (
                            TrainingRun { stage: Stage::ReadMetrics, logs, metrics },
                            Request::ReadMetrics {
                                path: joined(self.output_path(task).as_str(), "/metrics.json"),
                            },
                        )
                    },
                }
            },
            (Stage::ReadMetrics, Response::Metrics(content)) => {
                let read = match &content {
                    Some(text) => parse_metrics(Some(text.as_str())),
                    None => parse_metrics(None),
                };
                let metrics = TrainingMetrics {
                    loss_bits: read.loss_bits,
                    accuracy_bits: read.accuracy_bits,
                    duration_secs: run.metrics.duration_secs,
                };
                (
                    TrainingRun { stage: Stage::Upload, logs: run.logs, metrics },
                    Request::Upload {
                        path: joined(self.output_path(task).as_str(), "/gradients.pt"),
                    },
                )
            },
            (Stage::Upload, Response::Uploaded(Ok(cid))) => {
                let result = TrainingResult {
                    gradient_cid: cid,
                    metrics: run.metrics,
                    logs: run.logs,
                };
                let done = TrainingRun {
                    stage: Stage::Finished,
                    logs: Vec::new(),
                    metrics: result.metrics,
                };
                assert(texts(done.logs@) =~= Seq::<Seq<char>>::empty());
                (done, Request::Finish(Outcome::Completed(result)))
            },
            (Stage::Upload, Response::Uploaded(Err(e))) => run.fail(e),
            (Stage::InitCache, Response::Done(Err(e)))
            | (Stage::FetchModel, Response::Done(Err(e)))
            | (Stage::FetchDataset, Response::Done(Err(e)))
            | (Stage::PrepareOutput, Response::Done(Err(e))) => run.fail(e),
            (Stage::FetchModel, Response::Aborted) | (Stage::FetchDataset, Response::Aborted) => {
                run.end(Outcome::Aborted)
            },
            _ => run.fail(
                ClientError::Other(
                    String::from_str("response does not answer the pending request"),
                ),
            ),
        }
    }
}

} // verus!
