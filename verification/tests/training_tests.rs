use glin_client::error::{ClientError, ErrorKind};
use glin_client::json::JsonMember;
use glin_client::worker::training::{
    check_exit, check_process, command_line, dataset_source, metric_from_member, parse_metrics,
    record, DatasetSource, Outcome, ProcessEnd, Request, Response, Stage, StreamEvent, Streams,
    TrainingMetrics, TrainingRun,
};
use glin_client::worker::{TrainingConfig, TrainingExecutor, TrainingTask};

const TASK_ID: u128 = 0x550e8400e29b41d4a716446655440000;
const OUTPUT: &str = "/cache/outputs/550e8400-e29b-41d4-a716-446655440000";

fn executor() -> TrainingExecutor {
    TrainingExecutor::new("/cache".to_string(), None)
        .unwrap()
        .with_python("/usr/bin/python3".to_string())
        .with_script("/opt/agent/python/train.py".to_string())
}

fn task(dataset_url: &str) -> TrainingTask {
    TrainingTask {
        task_id: TASK_ID,
        model_cid: "QmModel".to_string(),
        dataset_url: dataset_url.to_string(),
        config: TrainingConfig { epochs: 3, batch_size: 32, learning_rate: "0.001".to_string() },
    }
}

/// A scripted outside world: what it answers and what it was asked.
struct World {
    model_cached: bool,
    dataset_cached: bool,
    script_present: bool,
    exit_code: Option<i32>,
    metrics: Option<String>,
    download: fn() -> Response,
    upload: Result<String, ClientError>,
    downloads: Vec<(String, String)>,
    url_downloads: Vec<(String, String)>,
    uploads: Vec<String>,
    runs: Vec<(String, Vec<String>)>,
    requests: usize,
}

fn world() -> World {
    World {
        model_cached: false,
        dataset_cached: false,
        script_present: true,
        exit_code: Some(0),
        metrics: Some("{\"loss\": 0.25, \"accuracy\": 0.75}".to_string()),
        download: || Response::Done(Ok(())),
        upload: Ok("QmGradient".to_string()),
        downloads: Vec::new(),
        url_downloads: Vec::new(),
        uploads: Vec::new(),
        runs: Vec::new(),
        requests: 0,
    }
}

fn execute(exec: &TrainingExecutor, task: &TrainingTask, world: &mut World) -> Outcome {
    let (mut run, mut request) = exec.start();
    loop {
        world.requests += 1;
        assert!(world.requests < 32, "the run does not end");
        let response = match request {
            Request::InitCache { dirs } => {
                assert_eq!(dirs, vec!["/cache/models", "/cache/datasets", "/cache/outputs"]);
                Response::Done(Ok(()))
            }
            Request::Exists { path } => Response::Present(if path.starts_with("/cache/models/") {
                world.model_cached
            } else if path.starts_with("/cache/datasets/") {
                world.dataset_cached
            } else {
                assert_eq!(path, "/opt/agent/python/train.py");
                world.script_present
            }),
            Request::Download { cid, dest } => {
                world.downloads.push((cid, dest));
                (world.download)()
            }
            Request::DownloadUrl { url, dest } => {
                world.url_downloads.push((url, dest));
                (world.download)()
            }
            Request::CreateDir { path } => {
                assert_eq!(path, OUTPUT);
                Response::Done(Ok(()))
            }
            Request::Run { program, args } => {
                world.runs.push((program, args));
                Response::Process {
                    end: ProcessEnd::Exited(world.exit_code),
                    logs: vec!["epoch 1".to_string(), "ERROR: warning".to_string()],
                    duration_secs: 17,
                }
            }
            Request::ReadMetrics { path } => {
                assert_eq!(path, format!("{}/metrics.json", OUTPUT));
                Response::Metrics(world.metrics.clone())
            }
            Request::Upload { path } => {
                world.uploads.push(path);
                Response::Uploaded(std::mem::replace(&mut world.upload, Ok(String::new())))
            }
            Request::Finish(outcome) => {
                assert_eq!(run.stage, Stage::Finished);
                return outcome;
            }
        };
        let stepped = exec.step(task, run, response);
        run = stepped.0;
        request = stepped.1;
    }
}

#[test]
fn executor_defaults() {
    let exec = TrainingExecutor::new("/c".to_string(), Some("http://gw".to_string())).unwrap();
    assert_eq!(exec.cache().cache_dir(), "/c");
    assert_eq!(exec.ipfs().gateway_url(), "http://gw");
    let (_, request) = exec.start();
    match request {
        Request::InitCache { dirs } => assert_eq!(dirs, vec!["/c/models", "/c/datasets", "/c/outputs"]),
        other => panic!("unexpected {:?}", other),
    }
    let t = task("ipfs://QmData");
    let mut run = TrainingRun {
        stage: Stage::CheckScript,
        logs: Vec::new(),
        metrics: TrainingMetrics { loss_bits: 0, accuracy_bits: 0, duration_secs: 0 },
    };
    run.stage = Stage::PrepareOutput;
    match exec.step(&t, run, Response::Done(Ok(()))).1 {
        Request::Exists { path } => assert_eq!(path, "python/train.py"),
        other => panic!("unexpected {:?}", other),
    }
    let run = TrainingRun {
        stage: Stage::CheckScript,
        logs: Vec::new(),
        metrics: TrainingMetrics { loss_bits: 0, accuracy_bits: 0, duration_secs: 0 },
    };
    match exec.step(&t, run, Response::Present(true)).1 {
        Request::Run { program, .. } => assert_eq!(program, "python3"),
        other => panic!("unexpected {:?}", other),
    }
}

#[test]
fn paths_of_a_task() {
    let exec = executor();
    let t = task("ipfs://QmData");
    assert_eq!(exec.model_path(&t), "/cache/models/QmModel");
    assert_eq!(exec.dataset_path(&t), "/cache/datasets/QmData");
    assert_eq!(exec.output_path(&t), OUTPUT);
    assert_eq!(exec.dataset_path(&task("https://host/sets/mnist.zip")), "/cache/datasets/mnist.zip");
    assert_eq!(exec.output_path(&t), exec.cache().output_path(&uuid::Uuid::from_u128(TASK_ID).to_string()));
}

#[test]
fn full_run_downloads_trains_and_uploads() {
    let exec = executor();
    let t = task("ipfs://QmData");
    let mut w = world();
    let outcome = execute(&exec, &t, &mut w);
    assert_eq!(
        w.downloads,
        vec![
            ("QmModel".to_string(), "/cache/models/QmModel".to_string()),
            ("QmData".to_string(), "/cache/datasets/QmData".to_string()),
        ]
    );
    assert!(w.url_downloads.is_empty());
    assert_eq!(w.uploads, vec![format!("{}/gradients.pt", OUTPUT)]);
    assert_eq!(w.runs.len(), 1);
    assert_eq!(w.runs[0].0, "/usr/bin/python3");
    assert_eq!(
        w.runs[0].1,
        vec![
            "/opt/agent/python/train.py",
            "--model",
            "/cache/models/QmModel",
            "--dataset",
            "/cache/datasets/QmData",
            "--output",
            OUTPUT,
            "--epochs",
            "3",
            "--batch-size",
            "32",
            "--learning-rate",
            "0.001",
        ]
    );
    match outcome {
        Outcome::Completed(result) => {
            assert_eq!(result.gradient_cid, "QmGradient");
            assert_eq!(f64::from_bits(result.metrics.loss_bits), 0.25);
            assert_eq!(f64::from_bits(result.metrics.accuracy_bits), 0.75);
            assert_eq!(result.metrics.duration_secs, 17);
            assert_eq!(result.logs, vec!["epoch 1", "ERROR: warning"]);
        }
        other => panic!("unexpected {:?}", other),
    }
}

#[test]
fn cached_inputs_are_not_downloaded() {
    let exec = executor();
    let t = task("ipfs://QmData");
    let mut w = world();
    w.model_cached = true;
    w.dataset_cached = true;
    let outcome = execute(&exec, &t, &mut w);
    assert!(w.downloads.is_empty());
    assert!(w.url_downloads.is_empty());
    assert!(matches!(outcome, Outcome::Completed(_)));
    assert_eq!(w.runs[0].1[2], "/cache/models/QmModel");
    assert_eq!(w.runs[0].1[4], "/cache/datasets/QmData");
}

#[test]
fn plain_dataset_address_is_downloaded_once_under_its_file_name() {
    let exec = executor();
    let t = task("https://host/sets/mnist.zip");
    let mut w = world();
    w.model_cached = true;
    let outcome = execute(&exec, &t, &mut w);
    assert!(w.downloads.is_empty());
    assert_eq!(
        w.url_downloads,
        vec![("https://host/sets/mnist.zip".to_string(), "/cache/datasets/mnist.zip".to_string())]
    );
    assert!(matches!(outcome, Outcome::Completed(_)));
}

#[test]
fn exit_code_one_is_a_training_error_and_nothing_is_uploaded() {
    let exec = executor();
    let t = task("ipfs://QmData");
    let mut w = world();
    w.exit_code = Some(1);
    match execute(&exec, &t, &mut w) {
        Outcome::Failed(e) => {
            assert_eq!(e.kind(), ErrorKind::Training);
            assert_eq!(
                e.to_string(),
                "Training error: Training script failed with exit code: Some(1)"
            );
        }
        other => panic!("unexpected {:?}", other),
    }
    assert!(w.uploads.is_empty());
    assert_eq!(w.runs.len(), 1);
}

#[test]
fn missing_metrics_record_counts_as_zero() {
    let exec = executor();
    let t = task("ipfs://QmData");
    let mut w = world();
    w.metrics = None;
    match execute(&exec, &t, &mut w) {
        Outcome::Completed(result) => {
            assert_eq!(f64::from_bits(result.metrics.loss_bits), 0.0);
            assert_eq!(f64::from_bits(result.metrics.accuracy_bits), 0.0);
            assert_eq!(result.metrics.duration_secs, 17);
            assert_eq!(result.gradient_cid, "QmGradient");
        }
        other => panic!("unexpected {:?}", other),
    }
    assert_eq!(w.uploads.len(), 1);
}

#[test]
fn unreadable_metrics_record_counts_as_zero() {
    let exec = executor();
    let t = task("ipfs://QmData");
    let mut w = world();
    w.metrics = Some("not json".to_string());
    match execute(&exec, &t, &mut w) {
        Outcome::Completed(result) => {
            assert_eq!(result.metrics.loss_bits, 0);
            assert_eq!(result.metrics.accuracy_bits, 0);
        }
        other => panic!("unexpected {:?}", other),
    }
}

#[test]
fn failed_download_ends_the_run() {
    let exec = executor();
    let t = task("ipfs://QmData");
    let mut w = world();
    w.download = || Response::Done(Err(ClientError::Storage("gone".to_string())));
    match execute(&exec, &t, &mut w) {
        Outcome::Failed(ClientError::Storage(detail)) => assert_eq!(detail, "gone"),
        other => panic!("unexpected {:?}", other),
    }
    assert_eq!(w.downloads.len(), 1);
    assert!(w.runs.is_empty());
    assert!(w.uploads.is_empty());
}

#[test]
fn aborted_download_ends_the_run_without_a_result() {
    let exec = executor();
    let t = task("ipfs://QmData");
    let mut w = world();
    w.download = || Response::Aborted;
    assert!(matches!(execute(&exec, &t, &mut w), Outcome::Aborted));
    assert!(w.runs.is_empty());
    assert!(w.uploads.is_empty());
}

#[test]
fn failed_upload_fails_the_run() {
    let exec = executor();
    let t = task("ipfs://QmData");
    let mut w = world();
    w.upload = Err(ClientError::Storage("IPFS upload failed: refused".to_string()));
    match execute(&exec, &t, &mut w) {
        Outcome::Failed(e) => assert_eq!(e.to_string(), "Storage error: IPFS upload failed: refused"),
        other => panic!("unexpected {:?}", other),
    }
    assert_eq!(w.uploads.len(), 1);
}

#[test]
fn missing_script_is_a_training_error() {
    let exec = executor();
    let t = task("ipfs://QmData");
    let mut w = world();
    w.script_present = false;
    match execute(&exec, &t, &mut w) {
        Outcome::Failed(e) => assert_eq!(
            e.to_string(),
            "Training error: Training script not found. Please ensure python/train.py exists."
        ),
        other => panic!("unexpected {:?}", other),
    }
    assert!(w.runs.is_empty());
}

#[test]
fn a_response_out_of_turn_ends_the_run() {
    let exec = executor();
    let t = task("ipfs://QmData");
    let (run, _) = exec.start();
    let (run, request) = exec.step(&t, run, Response::Present(true));
    assert_eq!(run.stage, Stage::Finished);
    match request {
        Request::Finish(Outcome::Failed(ClientError::Other(detail))) => {
            assert_eq!(detail, "response does not answer the pending request")
        }
        other => panic!("unexpected {:?}", other),
    }
    let (run, request) = exec.step(&t, run, Response::Done(Ok(())));
    assert_eq!(run.stage, Stage::Finished);
    assert!(matches!(request, Request::Finish(Outcome::Failed(ClientError::Other(_)))));
}

#[test]
fn dataset_references() {
    match dataset_source("ipfs://QmData") {
        DatasetSource::Content { cid } => assert_eq!(cid, "QmData"),
        other => panic!("unexpected {:?}", other),
    }
    match dataset_source("ipfs://") {
        DatasetSource::Content { cid } => assert_eq!(cid, ""),
        other => panic!("unexpected {:?}", other),
    }
    match dataset_source("https://host/a/b.zip") {
        DatasetSource::Http { file_name } => assert_eq!(file_name, "b.zip"),
        other => panic!("unexpected {:?}", other),
    }
    match dataset_source("b.zip") {
        DatasetSource::Http { file_name } => assert_eq!(file_name, "b.zip"),
        other => panic!("unexpected {:?}", other),
    }
    match dataset_source("https://host/dir/") {
        DatasetSource::Http { file_name } => assert_eq!(file_name, ""),
        other => panic!("unexpected {:?}", other),
    }
}

#[test]
fn command_line_carries_every_flag() {
    let config = TrainingConfig { epochs: 0, batch_size: 4294967295, learning_rate: "1e-5".to_string() };
    assert_eq!(
        command_line("train.py", "m", "d", "o", &config),
        vec![
            "train.py", "--model", "m", "--dataset", "d", "--output", "o", "--epochs", "0",
            "--batch-size", "4294967295", "--learning-rate", "1e-5",
        ]
    );
}

#[test]
fn log_keeps_order_and_tags_standard_error() {
    let mut streams = Streams::new();
    let mut log = Vec::new();
    assert!(record(&mut streams, &mut log, StreamEvent::Stdout("step 1".to_string())));
    assert!(record(&mut streams, &mut log, StreamEvent::Stderr("slow".to_string())));
    assert!(record(&mut streams, &mut log, StreamEvent::StderrClosed));
    assert!(record(&mut streams, &mut log, StreamEvent::Stdout("step 2".to_string())));
    assert!(!record(&mut streams, &mut log, StreamEvent::StdoutClosed));
    assert_eq!(log, vec!["step 1", "ERROR: slow", "step 2"]);
}

#[test]
fn standard_error_is_read_to_its_end_after_standard_output_closes() {
    let mut streams = Streams::new();
    let mut log = Vec::new();
    assert!(streams.reading());
    assert!(record(&mut streams, &mut log, StreamEvent::Stdout("done".to_string())));
    assert!(record(&mut streams, &mut log, StreamEvent::StdoutClosed));
    assert_eq!(streams, Streams { stdout_open: false, stderr_open: true });
    assert!(record(&mut streams, &mut log, StreamEvent::Stderr("late 1".to_string())));
    assert!(record(&mut streams, &mut log, StreamEvent::Stderr("late 2".to_string())));
    assert!(!record(&mut streams, &mut log, StreamEvent::StderrClosed));
    assert!(!streams.reading());
    assert_eq!(log, vec!["done", "ERROR: late 1", "ERROR: late 2"]);
}

#[test]
fn every_interleaving_keeps_all_lines_of_both_streams() {
    let out = ["o1", "o2", "o3"];
    let err = ["e1", "e2"];
    // Each pattern says, step by step, which stream the next line comes from.
    for pattern in ["ooeeo", "eeooo", "oooee", "oeoeo", "eoooe", "ooeoe"] {
        let mut streams = Streams::new();
        let mut log = Vec::new();
        let (mut o, mut e) = (0, 0);
        for source in pattern.chars() {
            let event = if source == 'o' {
                o += 1;
                StreamEvent::Stdout(out[o - 1].to_string())
            } else {
                e += 1;
                StreamEvent::Stderr(err[e - 1].to_string())
            };
            assert!(record(&mut streams, &mut log, event));
        }
        assert!(record(&mut streams, &mut log, StreamEvent::StderrClosed));
        assert!(!record(&mut streams, &mut log, StreamEvent::StdoutClosed));
        assert_eq!(log.len(), out.len() + err.len());
        let plain: Vec<&String> = log.iter().filter(|l| !l.starts_with("ERROR: ")).collect();
        let marked: Vec<&String> = log.iter().filter(|l| l.starts_with("ERROR: ")).collect();
        assert_eq!(plain, vec!["o1", "o2", "o3"]);
        assert_eq!(marked, vec!["ERROR: e1", "ERROR: e2"]);
    }
}

#[test]
fn exit_codes() {
    assert!(check_exit(Some(0)).is_ok());
    let cases = [
        (Some(1), "Some(1)"),
        (Some(-1), "Some(-1)"),
        (Some(137), "Some(137)"),
        (Some(i32::MIN), "Some(-2147483648)"),
        (None, "None"),
    ];
    for (code, shown) in cases {
        let e = check_exit(code).unwrap_err();
        assert_eq!(e.kind(), ErrorKind::Training);
        assert_eq!(
            e.to_string(),
            format!("Training error: Training script failed with exit code: {}", shown)
        );
        assert_eq!(shown, format!("{:?}", code));
    }
}

#[test]
fn process_ends() {
    assert!(check_process(ProcessEnd::Exited(Some(0))).is_ok());
    let cases = vec![
        (ProcessEnd::SpawnFailed("not found".to_string()), "Failed to spawn Python process: not found"),
        (ProcessEnd::StdoutUnavailable, "Failed to capture stdout"),
        (ProcessEnd::StderrUnavailable, "Failed to capture stderr"),
        (ProcessEnd::WaitFailed("interrupted".to_string()), "Failed to wait for process: interrupted"),
        (ProcessEnd::Exited(Some(2)), "Training script failed with exit code: Some(2)"),
        (ProcessEnd::Exited(None), "Training script failed with exit code: None"),
    ];
    for (end, detail) in cases {
        match check_process(end) {
            Err(ClientError::Training(d)) => assert_eq!(d, detail),
            other => panic!("unexpected {:?}", other),
        }
    }
}

#[test]
fn metrics_are_read_from_the_record() {
    let m = parse_metrics(Some("{\"loss\": 0.123, \"accuracy\": 0.987, \"extra\": true}"));
    assert_eq!(f64::from_bits(m.loss_bits), 0.123);
    assert_eq!(f64::from_bits(m.accuracy_bits), 0.987);
    assert_eq!(m.duration_secs, 0);
    let m = parse_metrics(Some("{\"loss\": 2, \"accuracy\": -1}"));
    assert_eq!(f64::from_bits(m.loss_bits), 2.0);
    assert_eq!(f64::from_bits(m.accuracy_bits), -1.0);
}

#[test]
fn missing_or_odd_metrics_are_zero() {
    let zero = TrainingMetrics { loss_bits: 0, accuracy_bits: 0, duration_secs: 0 };
    assert_eq!(parse_metrics(None), zero);
    assert_eq!(parse_metrics(Some("{}")), zero);
    assert_eq!(parse_metrics(Some("not json")), zero);
    assert_eq!(parse_metrics(Some("[1, 2]")), zero);
    assert_eq!(parse_metrics(Some("{\"loss\": \"0.5\", \"accuracy\": null}")), zero);
    let m = parse_metrics(Some("{\"accuracy\": 0.5}"));
    assert_eq!(m.loss_bits, 0);
    assert_eq!(f64::from_bits(m.accuracy_bits), 0.5);
    assert_eq!(f64::from_bits(0), 0.0);
}

#[test]
fn metric_from_a_member() {
    assert_eq!(metric_from_member(Ok(JsonMember::Number(1.5f64.to_bits()))), 1.5f64.to_bits());
    assert_eq!(metric_from_member(Ok(JsonMember::Absent)), 0);
    assert_eq!(metric_from_member(Ok(JsonMember::Text("1.5".to_string()))), 0);
    assert_eq!(metric_from_member(Ok(JsonMember::Other)), 0);
    assert_eq!(metric_from_member(Err("eof".to_string())), 0);
}
