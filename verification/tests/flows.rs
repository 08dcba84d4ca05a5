use dev_tools::mysql::password_reset::ProcessProbe;
use dev_tools::mysql::reset_flow::{
    build_memory_client_args, reset_password_step, reset_preflight, reset_target, ResetAction, ResetEvent,
    ResetStage, LIST_USERS_SQL,
};
use dev_tools::postgresql::reset_flow::{pg_reset_preflight, pg_reset_step, PgResetAction, PgResetEvent, PgResetStage};
use dev_tools::detector_base::instance_with_path;
use dev_tools::types::{MySQLInstance, PostgresqlInstance, ProcessOutput};

fn out(code: i32, stdout: &str, stderr: &str) -> Result<ProcessOutput, String> {
    Ok(ProcessOutput { stdout: stdout.to_string(), stderr: stderr.to_string(), exit_code: code })
}

fn step(stage: &ResetStage, event: ResetEvent) -> (ResetStage, ResetAction) {
    reset_password_step(stage, "8.0.36", "newpass1", Some(3307), &event)
}

#[test]
fn mysql_reset_runs_to_a_successful_answer() {
    let (s, a) = step(&ResetStage::Start, ResetEvent::Begin);
    assert!(matches!(a, ResetAction::StopService));
    let (s, a) = step(&s, ResetEvent::Finished(Ok(())));
    assert!(matches!(a, ResetAction::KillProcesses));
    let (s, a) = step(&s, ResetEvent::Finished(Ok(())));
    assert!(matches!(a, ResetAction::FindConfig));
    let (s, a) = step(&s, ResetEvent::ConfigFound(Some(r"C:\my.ini".to_string())));
    match a {
        ResetAction::Launch { backup, args } => {
            assert_eq!(backup, Some(r"C:\my.ini".to_string()));
            assert_eq!(args[0], r"--defaults-file=C:\my.ini");
            assert_eq!(args.len(), 4);
        },
        _ => panic!("expected a launch"),
    }
    let (mut s, a) = step(&s, ResetEvent::Launched(Ok(())));
    assert!(matches!(a, ResetAction::SleepAndPoll));
    for _ in 1..6 {
        let (n, a) = step(&s, ResetEvent::Polled(ProcessProbe::Running));
        assert!(matches!(a, ResetAction::SleepAndPoll));
        s = n;
    }
    let (s, a) = step(&s, ResetEvent::Polled(ProcessProbe::Running));
    assert!(matches!(a, ResetAction::RunSql(ref q) if q == LIST_USERS_SQL));
    let (s, a) = step(&s, ResetEvent::Ran(out(0, "", "")));
    assert!(matches!(a, ResetAction::RunSql(ref q) if q.contains("newpass1")));
    let (s, a) = step(&s, ResetEvent::Ran(out(0, "", "")));
    assert!(matches!(a, ResetAction::RunSql(ref q) if q.contains("authentication_string")));
    let (s, a) = step(&s, ResetEvent::Ran(out(0, "", "")));
    assert!(matches!(a, ResetAction::StopTemporary));
    let (s, a) = step(&s, ResetEvent::Finished(Ok(())));
    assert!(matches!(a, ResetAction::KillProcesses));
    let (s, a) = step(&s, ResetEvent::Finished(Ok(())));
    assert!(matches!(a, ResetAction::StartService));
    let (s, a) = step(&s, ResetEvent::Finished(Ok(())));
    assert!(matches!(a, ResetAction::WaitForService));
    let (s, a) = step(&s, ResetEvent::Waited);
    assert!(matches!(a, ResetAction::WaitForPort(3307)));
    let (s, a) = step(&s, ResetEvent::Waited);
    assert!(matches!(a, ResetAction::TestConnection));
    let (s, a) = step(&s, ResetEvent::Tested(Ok(false)));
    assert!(matches!(s, ResetStage::Done));
    match a {
        ResetAction::Finish(Ok(m)) => assert!(m.contains("SQL 命令执行成功")),
        _ => panic!("expected an answer"),
    }
}

#[test]
fn mysql_reset_restores_the_service_when_the_server_exits() {
    let (s, a) = step(&ResetStage::Polling { second: 2 }, ResetEvent::Polled(ProcessProbe::Exited));
    assert!(matches!(s, ResetStage::Done));
    match a {
        ResetAction::RestoreAndFail { stop_temporary, message } => {
            assert!(stop_temporary);
            assert_eq!(message, "MySQL 进程在启动后第 2 秒退出，请查看上方错误输出");
        },
        _ => panic!("expected a restore"),
    }
    let (_, a) = step(&ResetStage::Launching, ResetEvent::Launched(Err("denied".to_string())));
    match a {
        ResetAction::RestoreAndFail { stop_temporary, message } => {
            assert!(!stop_temporary);
            assert_eq!(message, "启动 MySQL 失败: denied");
        },
        _ => panic!("expected a restore"),
    }
    let (_, a) = step(&ResetStage::StoppingService, ResetEvent::Finished(Err("busy".to_string())));
    assert!(matches!(a, ResetAction::RestoreAndFail { stop_temporary: false, ref message } if message == "busy"));
    let (_, a) = step(&ResetStage::KillingProcesses, ResetEvent::Finished(Err("denied".to_string())));
    assert!(matches!(a, ResetAction::RestoreAndFail { stop_temporary: false, ref message } if message == "denied"));
    let (_, a) = step(&ResetStage::CleaningUp { sql_success: true }, ResetEvent::Finished(Err("kill".to_string())));
    assert!(matches!(a, ResetAction::RestoreAndFail { stop_temporary: true, ref message } if message == "kill"));
    let (_, a) = step(&ResetStage::StartingService { sql_success: true }, ResetEvent::Finished(Err("1058".to_string())));
    assert!(matches!(a, ResetAction::RestoreAndFail { stop_temporary: false, ref message } if message == "1058"));
}

#[test]
fn mysql_reset_without_effect_skips_verification() {
    let (s, a) = reset_password_step(&ResetStage::Resetting, "5.7.44", "x", None, &ResetEvent::Ran(out(0, "affected_rows\n0\n", "")));
    assert!(matches!(s, ResetStage::StoppingTemporary { sql_success: false }));
    assert!(matches!(a, ResetAction::StopTemporary));
    let (_, a) = reset_password_step(&ResetStage::WaitingForService { sql_success: false }, "5.7.44", "x", None, &ResetEvent::Waited);
    assert!(matches!(a, ResetAction::WaitForPort(3306)));
    let (_, a) = reset_password_step(&ResetStage::Testing { sql_success: false }, "5.7.44", "x", None, &ResetEvent::Tested(Ok(false)));
    assert!(matches!(a, ResetAction::Finish(Err(_))));
}

#[test]
fn mysql_reset_target_needs_a_service() {
    let mut inst = MySQLInstance {
        version: "8.0.36".to_string(),
        architecture: "x86_64".to_string(),
        status: "停止".to_string(),
        path: r"C:\m\bin".to_string(),
        service_name: None,
        port: Some(3306),
        is_residual: false,
    };
    assert_eq!(reset_target(&inst, None), Err("所选实例没有服务名，无法重置密码".to_string()));
    inst.service_name = Some("MySQL80".to_string());
    assert_eq!(reset_target(&inst, Some(3310)), Ok(("MySQL80".to_string(), Some(3310))));
    assert_eq!(reset_target(&inst, None), Ok(("MySQL80".to_string(), Some(3306))));
    assert_eq!(build_memory_client_args("SELECT 1;"), vec!["-u", "root", "--protocol=memory", "-e", "SELECT 1;"]);
}

fn pg(stage: PgResetStage, event: PgResetEvent) -> (PgResetStage, PgResetAction) {
    pg_reset_step(stage, "newpass1", None, true, &event)
}

#[test]
fn pg_reset_runs_to_a_successful_answer() {
    let (s, a) = pg(PgResetStage::Start, PgResetEvent::Begin);
    assert!(matches!(a, PgResetAction::StopService));
    let (s, a) = pg(s, PgResetEvent::Ran(out(2, "", "not started")));
    assert!(matches!(a, PgResetAction::WaitForService { running: false }));
    let (s, a) = pg(s, PgResetEvent::Waited);
    assert!(matches!(a, PgResetAction::KillProcesses));
    let (s, a) = pg(s, PgResetEvent::Finished(Ok(())));
    assert!(matches!(a, PgResetAction::FindHba));
    let (s, a) = pg(s, PgResetEvent::HbaFound(true));
    assert!(matches!(a, PgResetAction::BackupHba));
    let (s, a) = pg(s, PgResetEvent::Finished(Ok(())));
    assert!(matches!(a, PgResetAction::WriteTrust(ref t) if t.contains("trust")));
    let (s, a) = pg(s, PgResetEvent::Finished(Ok(())));
    assert!(matches!(a, PgResetAction::StartService));
    let (s, a) = pg(s, PgResetEvent::Ran(out(0, "", "")));
    assert!(matches!(a, PgResetAction::WaitForService { running: true }));
    let (s, a) = pg(s, PgResetEvent::Waited);
    assert!(matches!(a, PgResetAction::WaitForPort(5432)));
    let (s, a) = pg(s, PgResetEvent::Waited);
    match &a {
        PgResetAction::RunPsql(args) => assert_eq!(args[7], "ALTER USER postgres PASSWORD 'newpass1';"),
        _ => panic!("expected the statement"),
    }
    let (s, _) = pg(s, PgResetEvent::Ran(out(0, "ALTER ROLE", "")));
    assert_eq!(s, PgResetStage::StoppingTrusted { sql_success: true });
    let (s, _) = pg(s, PgResetEvent::Ran(out(0, "", "")));
    let (s, a) = pg(s, PgResetEvent::Waited);
    assert!(matches!(a, PgResetAction::KillProcesses));
    let (s, a) = pg(s, PgResetEvent::Finished(Ok(())));
    assert!(matches!(a, PgResetAction::RestoreHba));
    let (s, a) = pg(s, PgResetEvent::Finished(Ok(())));
    assert!(matches!(a, PgResetAction::StartService));
    let (s, _) = pg(s, PgResetEvent::Ran(out(0, "", "")));
    let (s, _) = pg(s, PgResetEvent::Waited);
    let (mut s, a) = pg(s, PgResetEvent::Waited);
    assert!(matches!(a, PgResetAction::ProbeConnection { after_pause: false, .. }));
    for _ in 1..3 {
        let (n, a) = pg(s, PgResetEvent::Ran(out(2, "", "refused")));
        assert!(matches!(a, PgResetAction::ProbeConnection { after_pause: true, .. }));
        s = n;
    }
    let (s, a) = pg(s, PgResetEvent::Ran(out(0, "", "")));
    assert_eq!(s, PgResetStage::Done);
    assert!(matches!(a, PgResetAction::Finish(Ok(ref m)) if m == "密码重置成功，连接测试通过！"));
}

#[test]
fn pg_reset_failures_restore_what_was_changed() {
    let (_, a) = pg(PgResetStage::FindingHba, PgResetEvent::HbaFound(false));
    assert!(matches!(a, PgResetAction::StartServiceAndFail(_)));
    let (_, a) = pg(PgResetStage::BackingUp, PgResetEvent::Finished(Err("disk".to_string())));
    assert!(matches!(a, PgResetAction::StartServiceAndFail(ref m) if m == "备份 pg_hba.conf 失败: disk"));
    let (_, a) = pg(PgResetStage::WritingTrust, PgResetEvent::Finished(Err("ro".to_string())));
    assert!(matches!(a, PgResetAction::RestoreAllAndFail(ref m) if m == "写入临时 pg_hba.conf 失败: ro"));
    let (_, a) = pg(PgResetStage::StartingTrusted, PgResetEvent::Ran(out(2, "", "boom")));
    assert!(matches!(a, PgResetAction::RestoreAllAndFail(ref m) if m == "启动服务失败: boom"));
    let (s, a) = pg(PgResetStage::Probing { sql_success: false, attempt: 5 }, PgResetEvent::Ran(out(2, "", "")));
    assert_eq!(s, PgResetStage::Done);
    assert!(matches!(a, PgResetAction::Finish(Err(_))));
    let (s, _) = pg_reset_step(PgResetStage::WaitingStopped, "x", None, false, &PgResetEvent::Waited);
    assert_eq!(s, PgResetStage::FindingHba);
}

fn my(path: &str, svc: Option<&str>, port: Option<u16>) -> MySQLInstance {
    MySQLInstance {
        version: "8.0.36".to_string(),
        architecture: "x86_64".to_string(),
        status: "停止".to_string(),
        path: path.to_string(),
        service_name: svc.map(|s| s.to_string()),
        port,
        is_residual: false,
    }
}

#[test]
fn reset_checks_password_before_anything() {
    let list = vec![my("", Some("MySQL57"), None), my(r"C:\m\bin", Some("MySQL80"), Some(3307))];
    assert_eq!(reset_preflight("123", None, &list, None).unwrap_err(), "验证失败: 密码长度至少需要6个字符");
    let (inst, svc, port) = reset_preflight("secret1", None, &list, None).unwrap();
    assert_eq!(inst.path, r"C:\m\bin");
    assert_eq!(svc, "MySQL80");
    assert_eq!(port, Some(3307));
    assert_eq!(reset_preflight("secret1", None, &list, Some(3310)).unwrap().2, Some(3310));
    let bare = my(r"C:\x\bin", None, None);
    assert_eq!(reset_preflight("secret1", Some(&bare), &list, None).unwrap_err(), "所选实例没有服务名，无法重置密码");
    assert_eq!(
        reset_preflight("secret1", None, &[], None).unwrap_err(),
        "未找到有效的 MySQL 实例（需要有安装路径和服务名）"
    );
}

#[test]
fn pg_reset_checks_password_before_anything() {
    let pg = |path: &str, svc: Option<&str>| PostgresqlInstance {
        version: "16.2".to_string(),
        architecture: "64位".to_string(),
        status: "启动".to_string(),
        path: path.to_string(),
        service_name: svc.map(|s| s.to_string()),
        port: Some(5432),
        is_residual: false,
        data_dir: None,
    };
    let list = vec![pg(r"C:\pg\bin", Some("postgresql-x64-16"))];
    assert_eq!(pg_reset_preflight("abc", None, &list, None).unwrap_err(), "验证失败: 密码长度至少需要6个字符");
    let (inst, svc, port) = pg_reset_preflight("secret1", None, &list, None).unwrap();
    assert_eq!((inst.path.as_str(), svc.as_str(), port), (r"C:\pg\bin", "postgresql-x64-16", Some(5432)));
    let bare = pg(r"C:\pg\bin", None);
    assert_eq!(pg_reset_preflight("secret1", Some(&bare), &list, None).unwrap_err(), "所选实例没有服务名，无法重置密码");
}

#[test]
fn change_uses_selected_or_first_with_path() {
    let list = vec![my("", Some("A"), None), my(r"C:\b", None, None)];
    assert_eq!(instance_with_path(None, &list, "未找到 MySQL 安装路径").unwrap().path, r"C:\b");
    assert_eq!(instance_with_path(Some(&list[0]), &list, "x").unwrap().path, "");
    assert_eq!(
        instance_with_path::<MySQLInstance>(None, &[], "未找到 MySQL 安装路径").unwrap_err(),
        "未找到 MySQL 安装路径"
    );
}
