use glin_client::error::{ClientError, ErrorKind};
use glin_client::gpu::detector::{
    cuda_release, estimate_bandwidth, mib_to_gib, parse_gpu, ram_gb, release_in_line, unknown_gpu,
    values,
};
use glin_client::worker::gpu_monitor::parse_stats;
use glin_client::worker::GpuMonitor;

fn hardware(e: ClientError) -> String {
    assert_eq!(e.kind(), ErrorKind::Hardware);
    match e {
        ClientError::Hardware(detail) => detail,
        other => panic!("unexpected {:?}", other),
    }
}

#[test]
fn values_are_split_and_trimmed() {
    assert_eq!(values("a, b ,c"), vec!["a", "b", "c"]);
    assert_eq!(values(""), vec![""]);
    assert_eq!(values(" , "), vec!["", ""]);
    for line in ["NVIDIA RTX 3090, 24576, 1, 535.54.03, 8.6", "x,,y ,", "  "] {
        let expected: Vec<&str> = line.split(',').map(|s| s.trim()).collect();
        assert_eq!(values(line), expected);
    }
}

#[test]
fn gpu_report_is_read() {
    let gpu = parse_gpu("NVIDIA GeForce RTX 3090, 24576, 1, 535.54.03, 8.6\n").unwrap();
    assert_eq!(gpu.model, "NVIDIA GeForce RTX 3090");
    assert_eq!(gpu.vram_gb, 24);
    assert_eq!(gpu.count, 1);
    assert_eq!(gpu.driver_version, "535.54.03");
    assert_eq!(gpu.compute_capability, "8.6");
    assert_eq!(gpu.compute_capability.parse::<f32>().unwrap(), 8.6);
    assert!(gpu.cuda_version.is_none());
}

#[test]
fn gpu_report_uses_the_first_line_only() {
    let gpu = parse_gpu("A, 2048, 2, 1.0, 7.5, extra\r\nB, x, y, z, w\r\n").unwrap();
    assert_eq!(gpu.model, "A");
    assert_eq!(gpu.vram_gb, 2);
    assert_eq!(gpu.count, 2);
}

#[test]
fn broken_gpu_reports_are_refused() {
    assert_eq!(hardware(parse_gpu("").unwrap_err()), "No GPU detected");
    assert_eq!(hardware(parse_gpu("a,b,c,d").unwrap_err()), "Unexpected nvidia-smi output format");
    assert_eq!(hardware(parse_gpu("\nA, 1, 1, 1, 1").unwrap_err()), "Unexpected nvidia-smi output format");
    assert_eq!(hardware(parse_gpu("A, big, 1, 1.0, 7.5").unwrap_err()), "Failed to parse VRAM");
    assert_eq!(hardware(parse_gpu("A, 1024, , 1.0, 7.5").unwrap_err()), "Failed to parse GPU count");
    assert_eq!(hardware(parse_gpu("A, 1.5, x, 1.0, 7.5").unwrap_err()), "Failed to parse VRAM");
}

#[test]
fn gibibytes_round_towards_zero() {
    assert_eq!(mib_to_gib(0), 0);
    assert_eq!(mib_to_gib(1023), 0);
    assert_eq!(mib_to_gib(1024), 1);
    assert_eq!(mib_to_gib(24576), 24);
    for n in [-1, -1023, -1024, -1025, -5000, i32::MIN, i32::MAX] {
        assert_eq!(mib_to_gib(n), n / 1024);
    }
    assert_eq!(ram_gb(0), 0);
    assert_eq!(ram_gb((1u64 << 30) - 1), 0);
    assert_eq!(ram_gb(64 << 30), 64);
    for bytes in [u64::MAX, 1u64 << 61, 3u64 << 60] {
        assert_eq!(ram_gb(bytes), (bytes / (1024 * 1024 * 1024)) as i32);
    }
}

#[test]
fn unknown_gpu_is_the_fallback() {
    let gpu = unknown_gpu();
    assert_eq!(gpu.model, "Unknown GPU");
    assert_eq!(gpu.count, 0);
    assert_eq!(gpu.vram_gb, 0);
    assert_eq!(gpu.compute_capability.parse::<f32>().unwrap(), 0.0);
    assert_eq!(gpu.driver_version, "Unknown");
    assert!(gpu.cuda_version.is_none());
    assert_eq!(estimate_bandwidth(), 1000);
}

#[test]
fn cuda_version_is_read_from_the_release_line() {
    let report = "nvcc: NVIDIA (R) Cuda compiler driver\n\
                  Copyright (c) 2005-2023 NVIDIA Corporation\n\
                  Cuda compilation tools, release 12.1, V12.1.105\n\
                  Build cuda_12.1.r12.1/compiler.32688072_0\n";
    assert_eq!(cuda_release(report).unwrap(), "12.1");
    assert_eq!(hardware(cuda_release("no version here\n").unwrap_err()), "Could not parse CUDA version");
    assert_eq!(hardware(cuda_release("").unwrap_err()), "Could not parse CUDA version");
}

#[test]
fn release_lines_are_read_like_split_does() {
    for line in [
        "tools, release 12.1, V12.1.105",
        "release",
        "release 11.8",
        "a release b release c",
        "releaserelease",
        "x release , y",
        "nothing",
        "",
    ] {
        let expected = if line.contains("release") {
            let part = line.split("release").nth(1).unwrap();
            Some(part.split(',').next().unwrap().trim().to_string())
        } else {
            None
        };
        assert_eq!(release_in_line(line), expected, "{:?}", line);
    }
}

#[test]
fn utilisation_report_is_read() {
    let stats = parse_stats("37, 2048, 8192, 65, 120.5\n").unwrap();
    assert_eq!(stats.usage_percent, "37");
    assert_eq!(stats.memory_used_mb, 2048);
    assert_eq!(stats.memory_total_mb, 8192);
    assert_eq!(stats.temperature_c, "65");
    assert_eq!(stats.power_draw_w, "120.5");
    assert_eq!(stats.available_mb(), 6144);
    let odd = parse_stats("x, [N/A], -5, y, z").unwrap();
    assert_eq!(odd.memory_used_mb, 0);
    assert_eq!(odd.memory_total_mb, 0);
    assert_eq!(odd.available_mb(), 0);
    let over = parse_stats("1, 9000, 8192, 2, 3").unwrap();
    assert_eq!(over.available_mb(), 0);
}

#[test]
fn broken_utilisation_reports_are_refused() {
    match parse_stats("") {
        Err(ClientError::GpuDetection(detail)) => assert_eq!(detail, "No GPU stats available"),
        other => panic!("unexpected {:?}", other),
    }
    match parse_stats("1, 2, 3, 4") {
        Err(ClientError::GpuDetection(detail)) => assert_eq!(detail, "Unexpected nvidia-smi output"),
        other => panic!("unexpected {:?}", other),
    }
}

#[test]
fn test_gpu_monitor_creation() {
    let monitor = GpuMonitor::new();
    let stats = monitor.get_stats(None);
    assert!(stats.is_ok());
}

#[test]
fn monitor_falls_back_to_zero() {
    let monitor = GpuMonitor::new();
    for report in [None, Some(""), Some("1,2")] {
        let stats = monitor.get_stats(report).unwrap();
        assert_eq!(stats.usage_percent.parse::<f32>().unwrap(), 0.0);
        assert_eq!(stats.memory_used_mb, 0);
        assert_eq!(stats.memory_total_mb, 0);
        assert_eq!(stats.temperature_c.parse::<f32>().unwrap(), 0.0);
        assert_eq!(stats.power_draw_w.parse::<f32>().unwrap(), 0.0);
    }
    let stats = monitor.get_stats(Some("50, 1, 2, 60, 70")).unwrap();
    assert_eq!(stats.usage_percent, "50");
    assert_eq!(stats.memory_total_mb, 2);
}
