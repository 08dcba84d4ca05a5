use dev_tools::app_commands::{check_config_export, check_log_export, export_file_name, is_path_allowed};
use dev_tools::download_control::{
    cancel_task, completed_total, incomplete_download_error, initial_downloaded, pause_task,
    range_header, register_task, remove_task, response_total, resume_task, should_emit_progress,
    DownloadControl, DownloadLoop, DownloadOutcome, LoopStep, TaskRegistry,
};
use dev_tools::plugin::route_command;
use dev_tools::probe::{connection_probe, ProbeVerdict};
use dev_tools::remote_version_cache::{
    cache_file_name, cache_is_fresh, cache_timestamp_text, choose_source, meta_file_name,
    parse_cache_timestamp, DataSource,
};
use dev_tools::service_manager::{
    choose_exe_path, extract_exe_path, filter_services, service_bin_dir, service_state_label,
    to_wide, ExePath,
};
use dev_tools::types::ProcessOutput;

#[test]
fn paths_allowed_only_within_bases() {
    let bases = vec![Some(r"C:\Users\me\AppData\dev".to_string()), None];
    assert!(is_path_allowed(Some(r"C:\Users\me\AppData\dev"), &bases));
    assert!(is_path_allowed(Some(r"C:\Users\me\AppData\dev\logs\a.log"), &bases));
    assert!(!is_path_allowed(Some(r"C:\Users\me\AppData\devil"), &bases));
    assert!(!is_path_allowed(Some(r"C:\Windows"), &bases));
    assert!(!is_path_allowed(None, &bases));
}

#[test]
fn export_checks() {
    assert_eq!(check_log_export("  hello \n"), Ok("hello".to_string()));
    assert_eq!(check_log_export("   "), Err("日志为空，无可导出内容".to_string()));
    assert_eq!(check_config_export(""), Err("配置内容为空，无可导出".to_string()));
    let big = "x".repeat(5242881);
    assert_eq!(
        check_config_export(&big),
        Err("配置内容过大 (5242881 字节，上限 5242880 字节)".to_string())
    );
    assert_eq!(export_file_name("logs", 17, "txt"), "logs-17.txt");
}

#[test]
fn download_controls_and_registry() {
    let mut c = DownloadControl::new();
    assert!(!c.is_paused() && !c.is_cancelled());
    c.pause();
    assert!(c.is_paused());
    c.resume();
    assert!(!c.is_paused());
    c.cancel();
    assert!(c.is_cancelled());

    let mut reg = TaskRegistry::new();
    assert_eq!(pause_task(&mut reg, "a"), Err("下载任务不存在: a".to_string()));
    let fresh = register_task(&mut reg, "a").unwrap();
    assert!(!fresh.paused && !fresh.cancelled);
    pause_task(&mut reg, "a").unwrap();
    assert!(reg.control("a").unwrap().paused);
    resume_task(&mut reg, "a").unwrap();
    assert!(!reg.control("a").unwrap().paused);
    cancel_task(&mut reg, "a").unwrap();
    resume_task(&mut reg, "a").unwrap();
    assert!(reg.control("a").unwrap().cancelled);
    register_task(&mut reg, "a").unwrap();
    assert!(!reg.control("a").unwrap().cancelled);
    remove_task(&mut reg, "a").unwrap();
    assert!(reg.control("a").is_none());
    remove_task(&mut reg, "a").unwrap();
}

#[test]
fn download_loop_steps() {
    let mut l = DownloadLoop::start(3);
    let s = l.on_outcome(DownloadOutcome::Error("net".to_string(), 100, 1000), false);
    assert!(matches!(s, LoopStep::RetryAfterDelay));
    assert_eq!(l.error_count, 1);
    assert_eq!(l.downloaded, 100);
    let s = l.on_outcome(DownloadOutcome::Paused { downloaded: 200, total_size: 0 }, false);
    assert!(matches!(s, LoopStep::AwaitResume));
    assert_eq!(l.total_size, 1000);
    let s = l.after_pause(false);
    assert!(matches!(s, LoopStep::Continue));
    assert_eq!(l.error_count, 0);
    l.on_outcome(DownloadOutcome::Error("a".to_string(), 200, 0), false);
    l.on_outcome(DownloadOutcome::Error("b".to_string(), 200, 0), false);
    match l.on_outcome(DownloadOutcome::Error("c".to_string(), 200, 0), false) {
        LoopStep::Failed(m) => assert_eq!(m, "下载失败（已重试 3 次）: c"),
        _ => panic!("expected failure"),
    }
    let mut l = DownloadLoop::start(3);
    assert!(matches!(
        l.on_outcome(DownloadOutcome::Completed { actual_size: 5, total_size: 0 }, false),
        LoopStep::Finished { actual_size: 5, total_size: 0 }
    ));
    assert!(matches!(l.on_outcome(DownloadOutcome::Cancelled, false), LoopStep::Cancelled));
}

#[test]
fn download_arithmetic() {
    assert_eq!(range_header(0), None);
    assert_eq!(range_header(1024), Some("bytes=1024-".to_string()));
    assert_eq!(response_total(true, Some(100), 50, 0), 150);
    assert_eq!(response_total(false, Some(100), 50, 0), 100);
    assert_eq!(response_total(true, None, 50, 7), 7);
    assert_eq!(initial_downloaded(true, 50), 50);
    assert_eq!(initial_downloaded(false, 50), 0);
    assert!(should_emit_progress(65536, 0, 200));
    assert!(!should_emit_progress(65535, 0, 500));
    assert!(!should_emit_progress(70000, 0, 199));
    assert_eq!(completed_total(5, 0), 5);
    assert_eq!(completed_total(5, 9), 9);
    assert_eq!(incomplete_download_error(5, 5), None);
    assert_eq!(
        incomplete_download_error(4, 5),
        Some("文件大小不完整（实际 4 / 预期 5 字节），可能下载中断".to_string())
    );
}

#[test]
fn commands_are_routed_to_their_plugin() {
    let lists = vec![
        vec!["detect_java".to_string()],
        vec!["detect_node".to_string(), "switch_npm".to_string()],
    ];
    assert_eq!(route_command(&lists, "switch_npm"), Some(1));
    assert_eq!(route_command(&lists, "detect_java"), Some(0));
    assert_eq!(route_command(&lists, "nothing"), None);
}

#[test]
fn connection_probe_verdicts() {
    let ok = Ok(ProcessOutput { stdout: String::new(), stderr: String::new(), exit_code: 0 });
    let bad = Ok(ProcessOutput { stdout: String::new(), stderr: String::new(), exit_code: 1 });
    assert_eq!(connection_probe(1, &ok), ProbeVerdict::Connected);
    assert_eq!(connection_probe(1, &bad), ProbeVerdict::Retry);
    assert_eq!(connection_probe(5, &bad), ProbeVerdict::GaveUp);
    assert_eq!(connection_probe(5, &Err("x".to_string())), ProbeVerdict::GaveUp);
}

#[test]
fn remote_cache_rules() {
    assert!(cache_is_fresh(1000, 1000));
    assert!(cache_is_fresh(1000 + 86400, 1000));
    assert!(!cache_is_fresh(1000 + 86401, 1000));
    assert!(cache_is_fresh(5, 10));
    assert_eq!(parse_cache_timestamp(" 1700000000\n"), Some(1700000000));
    assert_eq!(parse_cache_timestamp("x"), None);
    assert_eq!(cache_file_name("node"), "node.json");
    assert_eq!(meta_file_name("node"), "node.meta");
    assert_eq!(cache_timestamp_text(42), "42");
    assert_eq!(choose_source(true, false, false), DataSource::Cache);
    assert_eq!(choose_source(false, true, true), DataSource::Remote);
    assert_eq!(choose_source(false, true, false), DataSource::Embedded);
}

#[test]
fn service_helpers() {
    match extract_exe_path("\"C:\\Program Files\\MySQL\\bin\\mysqld.exe\" --defaults-file=x MySQL80") {
        ExePath::Known(p) => assert_eq!(p, r"C:\Program Files\MySQL\bin\mysqld.exe"),
        _ => panic!("expected a known path"),
    }
    match extract_exe_path(r"C:\Program Files\x\bin\mysqld.exe --opt") {
        ExePath::FirstExisting(ps) => {
            assert_eq!(ps[0], r"C:\Program");
            assert_eq!(ps[2], r"C:\Program Files\x\bin\mysqld.exe");
        },
        _ => panic!("expected candidates"),
    }
    let cands = vec!["a".to_string(), "b".to_string()];
    assert_eq!(choose_exe_path(&cands, &vec![false, true]), "b");
    assert_eq!(choose_exe_path(&cands, &vec![false, false]), "a");
    assert_eq!(service_bin_dir(r"C:\m\bin\mysqld.exe"), Some(r"C:\m\bin".to_string()));
    assert_eq!(service_state_label(Some(4)), "启动");
    assert_eq!(service_state_label(Some(1)), "停止");
    assert_eq!(service_state_label(None), "未安装");
    assert_eq!(to_wide("a"), vec![97, 0]);
    let names = vec!["MySQL80".to_string(), "Spooler".to_string(), "postgresql-x64-16".to_string()];
    let kws = vec!["mysql".to_string(), "postgres".to_string()];
    assert_eq!(filter_services(&names, &kws), vec!["MySQL80".to_string(), "postgresql-x64-16".to_string()]);
}
