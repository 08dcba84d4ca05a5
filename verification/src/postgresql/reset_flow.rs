//! The course of a reset of the `postgres` password through a temporary
//! `trust` `pg_hba.conf`: the service is stopped, `pg_hba.conf` is backed up
//! and replaced, the service runs in trust mode while `ALTER USER` runs, then
//! it is stopped, `pg_hba.conf` restored, the service started again and the new
//! password tested.  The decisions are taken here; the caller performs each
//! action and reports what came of it.
use vstd::prelude::*;
use crate::error::owned;
use crate::text::{push_str, from_chars};
use crate::types::ProcessOutput;
use crate::mysql::password_reset::result_view;
use crate::probe::{ProbeVerdict, connection_probe, CONNECTION_ATTEMPTS};
use crate::postgresql::password_reset::{
    TRUST_HBA_CONFIG, trust_start_failure, trust_start_failure_of, build_psql_args, psql_args,
    build_alter_password_sql, alter_password_sql, reset_outcome, pg_reset_answer, port_or_default,
    validate_password_strength, resolve_port,
};
use crate::mysql::password_reset::password_refusal;
use crate::detector_base::{select_valid_instance, usable, DbInstance};
use crate::types::PostgresqlInstance;

verus! {

/// Where a reset stands.
#[derive(Debug, Clone, Copy, PartialEq, Eq)]
pub enum PgResetStage {
    /// Nothing has run yet.
    Start,
    /// `net stop` runs.
    StoppingService,
    /// The caller waits for the service to stop.
    WaitingStopped,
    /// The instance's processes are being killed.
    KillingProcesses,
    /// `pg_hba.conf` is being looked for.
    FindingHba,
    /// `pg_hba.conf` is being copied aside.
    BackingUp,
    /// The trust configuration is being written.
    WritingTrust,
    /// `net start` runs with the trust configuration.
    StartingTrusted,
    /// The caller waits for the service in trust mode.
    WaitingTrusted,
    /// The caller waits for the port in trust mode.
    WaitingTrustedPort,
    /// `ALTER USER` runs.
    Altering,
    /// `net stop` runs after the statement.
    StoppingTrusted { sql_success: bool },
    /// The caller waits for the service to stop again.
    WaitingStoppedAgain { sql_success: bool },
    /// The instance's processes are being killed again.
    CleaningUp { sql_success: bool },
    /// `pg_hba.conf` is being restored.
    Restoring { sql_success: bool },
    /// `net start` runs with the restored configuration.
    Restarting { sql_success: bool },
    /// The caller waits for the service to run.
    WaitingRestart { sql_success: bool },
    /// The caller waits for the port.
    WaitingRestartPort { sql_success: bool },
    /// The new password is being tested, for the `attempt`-th time.
    Probing { sql_success: bool, attempt: u32 },
    /// The reset is over.
    Done,
}

/// What the caller does next.
#[derive(Debug)]
pub enum PgResetAction {
    /// Run `net stop` on the service.
    StopService,
    /// Run `net start` on the service.
    StartService,
    /// Wait (up to 30 s when stopping, 40 s when starting) for the service to
    /// be running, or stopped.
    WaitForService { running: bool },
    /// Wait (up to 40 s) for this port to accept connections.
    WaitForPort(u16),
    /// Kill the instance's processes and wait for them to exit.
    KillProcesses,
    /// Look for `pg_hba.conf`.
    FindHba,
    /// Copy `pg_hba.conf` aside.
    BackupHba,
    /// Write this text to `pg_hba.conf`.
    WriteTrust(String),
    /// Run `psql` with these arguments.
    RunPsql(Vec<String>),
    /// Put the backed-up `pg_hba.conf` back.
    RestoreHba,
    /// Run `psql` with these arguments and the new password in `PGPASSWORD`;
    /// when `after_pause`, sleep first.
    ProbeConnection { args: Vec<String>, after_pause: bool },
    /// Start the service and answer this error.
    StartServiceAndFail(String),
    /// Put the backed-up `pg_hba.conf` back, start the service, and answer this error.
    RestoreAllAndFail(String),
    /// Answer this.
    Finish(Result<String, String>),
}

/// What the caller reports back.
#[derive(Debug)]
pub enum PgResetEvent {
    /// The reset starts.
    Begin,
    /// A file or process step ended.
    Finished(Result<(), String>),
    /// A wait ended (its outcome decides nothing).
    Waited,
    /// Whether `pg_hba.conf` was found.
    HbaFound(bool),
    /// A command ran: its output, or the reason it could not run.
    Ran(Result<ProcessOutput, String>),
}

/// The event answers the action that led to the stage.
pub open spec fn pg_reset_event_fits(stage: PgResetStage, event: PgResetEvent) -> bool {
    match stage {
        PgResetStage::Start => event is Begin,
        PgResetStage::StoppingService => event is Ran,
        PgResetStage::WaitingStopped => event is Waited,
        PgResetStage::KillingProcesses => event is Finished,
        PgResetStage::FindingHba => event is HbaFound,
        PgResetStage::BackingUp => event is Finished,
        PgResetStage::WritingTrust => event is Finished,
        PgResetStage::StartingTrusted => event is Ran,
        PgResetStage::WaitingTrusted => event is Waited,
        PgResetStage::WaitingTrustedPort => event is Waited,
        PgResetStage::Altering => event is Ran,
        PgResetStage::StoppingTrusted { .. } => event is Ran,
        PgResetStage::WaitingStoppedAgain { .. } => event is Waited,
        PgResetStage::CleaningUp { .. } => event is Finished,
        PgResetStage::Restoring { .. } => event is Finished,
        PgResetStage::Restarting { .. } => event is Ran,
        PgResetStage::WaitingRestart { .. } => event is Waited,
        PgResetStage::WaitingRestartPort { .. } => event is Waited,
        PgResetStage::Probing { attempt, .. } => event is Ran && 1 <= attempt <= CONNECTION_ATTEMPTS,
        PgResetStage::Done => false,
    }
}

/// The order of the stages; probing moves forward with each attempt.
pub open spec fn pg_reset_rank(stage: PgResetStage) -> int {
    match stage {
        PgResetStage::Start => 0,
        PgResetStage::StoppingService => 1,
        PgResetStage::WaitingStopped => 2,
        PgResetStage::KillingProcesses => 3,
        PgResetStage::FindingHba => 4,
        PgResetStage::BackingUp => 5,
        PgResetStage::WritingTrust => 6,
        PgResetStage::StartingTrusted => 7,
        PgResetStage::WaitingTrusted => 8,
        PgResetStage::WaitingTrustedPort => 9,
        PgResetStage::Altering => 10,
        PgResetStage::StoppingTrusted { .. } => 11,
        PgResetStage::WaitingStoppedAgain { .. } => 12,
        PgResetStage::CleaningUp { .. } => 13,
        PgResetStage::Restoring { .. } => 14,
        PgResetStage::Restarting { .. } => 15,
        PgResetStage::WaitingRestart { .. } => 16,
        PgResetStage::WaitingRestartPort { .. } => 17,
        PgResetStage::Probing { attempt, .. } => 18 + attempt,
        PgResetStage::Done => 30,
    }
}

/// The stages at which `pg_hba.conf` may hold the trust configuration: from
/// its writing until it is restored.
pub open spec fn trust_in_place(stage: PgResetStage) -> bool {
    match stage {
        PgResetStage::WritingTrust | PgResetStage::StartingTrusted | PgResetStage::WaitingTrusted
        | PgResetStage::WaitingTrustedPort | PgResetStage::Altering | PgResetStage::StoppingTrusted { .. }
        | PgResetStage::WaitingStoppedAgain { .. } | PgResetStage::CleaningUp { .. } => true,
        _ => false,
    }
}

/// The stages after `net stop` was issued and before the service was started
/// again with the original configuration: a failure here must start it.
pub open spec fn pg_service_stopped(stage: PgResetStage) -> bool {
    match stage {
        PgResetStage::Start | PgResetStage::WaitingRestart { .. } | PgResetStage::WaitingRestartPort { .. }
        | PgResetStage::Probing { .. } | PgResetStage::Done => false,
        _ => true,
    }
}

/// A `psql` run that exited with 0.
pub open spec fn psql_succeeded(res: Result<ProcessOutput, String>) -> bool {
    res matches Ok(o) && o.exit_code == 0
}

fn prefixed(prefix: &str, text: &str) -> (r: String)
    ensures
        r@ == prefix@ + text@,
{
    let mut m: Vec<char> = Vec::new();
    push_str(&mut m, prefix);
    push_str(&mut m, text);
    from_chars(&m)
}

/// One step of a reset of the `postgres` password to `new_password`, for the
/// instance listening on `port`; `has_bin_dir` tells whether the instance's
/// `bin` directory is known (its processes are then killed after each stop).
///
/// What `net stop` and the process kills report decides nothing.  Every
/// failure after the stop starts the service again: without `pg_hba.conf`, or
/// when its backup fails, the service is started and the reset fails; a trust
/// configuration that cannot be written, or a service that cannot start in
/// trust mode, is undone (`pg_hba.conf` restored) and the service started.  After
/// `ALTER USER` (successful when `psql` exits with 0) the service is stopped,
/// `pg_hba.conf` restored, the service started, and the new password tried up
/// to [`CONNECTION_ATTEMPTS`] times; [`pg_reset_answer`] words the answer.
pub fn pg_reset_step(
    stage: PgResetStage,
    new_password: &str,
    port: Option<u16>,
    has_bin_dir: bool,
    event: &PgResetEvent,
) -> (r: (PgResetStage, PgResetAction))
    requires
        pg_reset_event_fits(stage, *event),
    ensures
        pg_reset_rank(r.0) > pg_reset_rank(stage),
        (r.1 is Finish || r.1 is StartServiceAndFail || r.1 is RestoreAllAndFail) <==> r.0 == PgResetStage::Done,
        pg_service_stopped(stage) && r.0 == PgResetStage::Done ==> (r.1 is StartServiceAndFail || r.1 is RestoreAllAndFail),
        trust_in_place(stage) && r.0 == PgResetStage::Done ==> r.1 is RestoreAllAndFail,
        (r.1 matches PgResetAction::Finish(Ok(_))) ==> stage is Probing,
        stage == PgResetStage::Start ==> r.0 == PgResetStage::StoppingService && r.1 is StopService,
        stage == PgResetStage::StoppingService ==> r.0 == PgResetStage::WaitingStopped && r.1
            == (PgResetAction::WaitForService { running: false }),
        stage == PgResetStage::WaitingStopped ==> if has_bin_dir {
            r.0 == PgResetStage::KillingProcesses && r.1 is KillProcesses
        } else {
            r.0 == PgResetStage::FindingHba && r.1 is FindHba
        },
        stage == PgResetStage::KillingProcesses ==> r.0 == PgResetStage::FindingHba && r.1 is FindHba,
        stage == PgResetStage::FindingHba ==> if *event == PgResetEvent::HbaFound(true) {
            r.0 == PgResetStage::BackingUp && r.1 is BackupHba
        } else {
            r.1 matches PgResetAction::StartServiceAndFail(m) && m@
                == "未找到 pg_hba.conf，无法通过 trust 法重置密码"@
        },
        stage == PgResetStage::BackingUp ==> match *event {
            PgResetEvent::Finished(Ok(())) => r.0 == PgResetStage::WritingTrust && (r.1 matches PgResetAction::WriteTrust(
                t,
            ) && t@ == TRUST_HBA_CONFIG@),
            PgResetEvent::Finished(Err(e)) => r.1 matches PgResetAction::StartServiceAndFail(m) && m@
                == "备份 pg_hba.conf 失败: "@ + e@,
            _ => true,
        },
        stage == PgResetStage::WritingTrust ==> match *event {
            PgResetEvent::Finished(Ok(())) => r.0 == PgResetStage::StartingTrusted && r.1 is StartService,
            PgResetEvent::Finished(Err(e)) => r.1 matches PgResetAction::RestoreAllAndFail(m) && m@
                == "写入临时 pg_hba.conf 失败: "@ + e@,
            _ => true,
        },
        stage == PgResetStage::StartingTrusted ==> (*event matches PgResetEvent::Ran(res) && match trust_start_failure_of(
            res,
        ) {
            Some(m) => r.1 matches PgResetAction::RestoreAllAndFail(x) && x@ == m,
            None => r.0 == PgResetStage::WaitingTrusted && r.1 == (PgResetAction::WaitForService { running: true }),
        }),
        stage == PgResetStage::WaitingTrusted ==> r.0 == PgResetStage::WaitingTrustedPort && r.1
            == PgResetAction::WaitForPort(
            match port {
                Some(p) => p,
                None => 5432,
            },
        ),
        stage == PgResetStage::WaitingTrustedPort ==> r.0 == PgResetStage::Altering && (r.1 matches PgResetAction::RunPsql(
            a,
        ) && a.deep_view() == psql_args(
            match port {
                Some(p) => p,
                None => 5432,
            },
            alter_password_sql(new_password@),
        )),
        stage == PgResetStage::Altering ==> (*event matches PgResetEvent::Ran(res) && r.0
            == (PgResetStage::StoppingTrusted { sql_success: psql_succeeded(res) }) && r.1 is StopService),
        stage matches PgResetStage::StoppingTrusted { sql_success } ==> r.0 == (PgResetStage::WaitingStoppedAgain {
            sql_success,
        }) && r.1 == (PgResetAction::WaitForService { running: false }),
        stage matches PgResetStage::WaitingStoppedAgain { sql_success } ==> if has_bin_dir {
            r.0 == (PgResetStage::CleaningUp { sql_success }) && r.1 is KillProcesses
        } else {
            r.0 == (PgResetStage::Restoring { sql_success }) && r.1 is RestoreHba
        },
        stage matches PgResetStage::CleaningUp { sql_success } ==> r.0 == (PgResetStage::Restoring { sql_success })
            && r.1 is RestoreHba,
        stage matches PgResetStage::Restoring { sql_success } ==> r.0 == (PgResetStage::Restarting { sql_success })
            && r.1 is StartService,
        stage matches PgResetStage::Restarting { sql_success } ==> r.0 == (PgResetStage::WaitingRestart {
            sql_success,
        }) && r.1 == (PgResetAction::WaitForService { running: true }),
        stage matches PgResetStage::WaitingRestart { sql_success } ==> r.0 == (PgResetStage::WaitingRestartPort {
            sql_success,
        }) && r.1 == PgResetAction::WaitForPort(
            match port {
                Some(p) => p,
                None => 5432,
            },
        ),
        stage matches PgResetStage::WaitingRestartPort { sql_success } ==> r.0 == (PgResetStage::Probing {
            sql_success,
            attempt: 1,
        }) && (r.1 matches PgResetAction::ProbeConnection { args, after_pause } && !after_pause
            && args.deep_view() == psql_args(
            match port {
                Some(p) => p,
                None => 5432,
            },
            "SELECT 1;"@,
        )),
        stage matches PgResetStage::Probing { sql_success, attempt } ==> (*event matches PgResetEvent::Ran(res) && if psql_succeeded(res) {
            r.1 matches PgResetAction::Finish(a) && result_view(a) == pg_reset_answer(sql_success, true)
        } else if attempt < CONNECTION_ATTEMPTS {
            r.0 == (PgResetStage::Probing { sql_success, attempt: (attempt + 1) as u32 }) && (r.1 matches PgResetAction::ProbeConnection {
                args,
                after_pause,
            } && after_pause && args.deep_view() == psql_args(
                match port {
                    Some(p) => p,
                    None => 5432,
                },
                "SELECT 1;"@,
            ))
        } else {
            r.1 matches PgResetAction::Finish(a) && result_view(a) == pg_reset_answer(sql_success, false)
        }),
{
    let p = port_or_default(port);
    match stage {
        PgResetStage::Start => (PgResetStage::StoppingService, PgResetAction::StopService),
        PgResetStage::StoppingService => (
            PgResetStage::WaitingStopped,
            PgResetAction::WaitForService { running: false },
        ),
        PgResetStage::WaitingStopped => {
            if has_bin_dir {
                (PgResetStage::KillingProcesses, PgResetAction::KillProcesses)
            } else {
                (PgResetStage::FindingHba, PgResetAction::FindHba)
            }
        },
        PgResetStage::KillingProcesses => (PgResetStage::FindingHba, PgResetAction::FindHba),
        PgResetStage::FindingHba => {
            let found = match event {
                PgResetEvent::HbaFound(f) => *f,
                _ => false,
            };
            if found {
                (PgResetStage::BackingUp, PgResetAction::BackupHba)
            } else {
                (
                    PgResetStage::Done,
                    PgResetAction::StartServiceAndFail(owned("未找到 pg_hba.conf，无法通过 trust 法重置密码")),
                )
            }
        },
        PgResetStage::BackingUp => match event {
            PgResetEvent::Finished(Ok(())) => (
                PgResetStage::WritingTrust,
                PgResetAction::WriteTrust(owned(TRUST_HBA_CONFIG)),
            ),
            PgResetEvent::Finished(Err(e)) => (
                PgResetStage::Done,
                PgResetAction::StartServiceAndFail(prefixed("备份 pg_hba.conf 失败: ", e.as_str())),
            ),
            _ => (PgResetStage::Done, PgResetAction::StartServiceAndFail(String::new())),
        },
        PgResetStage::WritingTrust => match event {
            PgResetEvent::Finished(Ok(())) => (PgResetStage::StartingTrusted, PgResetAction::StartService),
            PgResetEvent::Finished(Err(e)) => (
                PgResetStage::Done,
                PgResetAction::RestoreAllAndFail(prefixed("写入临时 pg_hba.conf 失败: ", e.as_str())),
            ),
            _ => (PgResetStage::Done, PgResetAction::RestoreAllAndFail(String::new())),
        },
        PgResetStage::StartingTrusted => match event {
            PgResetEvent::Ran(res) => match trust_start_failure(res) {
                Some(m) => (PgResetStage::Done, PgResetAction::RestoreAllAndFail(m)),
                None => (PgResetStage::WaitingTrusted, PgResetAction::WaitForService { running: true }),
            },
            _ => (PgResetStage::Done, PgResetAction::RestoreAllAndFail(String::new())),
        },
        PgResetStage::WaitingTrusted => (PgResetStage::WaitingTrustedPort, PgResetAction::WaitForPort(p)),
        PgResetStage::WaitingTrustedPort => {
            let sql = build_alter_password_sql(new_password);
            (PgResetStage::Altering, PgResetAction::RunPsql(build_psql_args(p, sql.as_str())))
        },
        PgResetStage::Altering => {
            let ok = match event {
                PgResetEvent::Ran(Ok(o)) => o.exit_code == 0,
                _ => false,
            };
            (PgResetStage::StoppingTrusted { sql_success: ok }, PgResetAction::StopService)
        },
        PgResetStage::StoppingTrusted { sql_success } => (
            PgResetStage::WaitingStoppedAgain { sql_success },
            PgResetAction::WaitForService { running: false },
        ),
        PgResetStage::WaitingStoppedAgain { sql_success } => {
            if has_bin_dir {
                (PgResetStage::CleaningUp { sql_success }, PgResetAction::KillProcesses)
            } else {
                (PgResetStage::Restoring { sql_success }, PgResetAction::RestoreHba)
            }
        },
        PgResetStage::CleaningUp { sql_success } => (PgResetStage::Restoring { sql_success }, PgResetAction::RestoreHba),
        PgResetStage::Restoring { sql_success } => (PgResetStage::Restarting { sql_success }, PgResetAction::StartService),
        PgResetStage::Restarting { sql_success } => (
            PgResetStage::WaitingRestart { sql_success },
            PgResetAction::WaitForService { running: true },
        ),
        PgResetStage::WaitingRestart { sql_success } => (
            PgResetStage::WaitingRestartPort { sql_success },
            PgResetAction::WaitForPort(p),
        ),
        PgResetStage::WaitingRestartPort { sql_success } => (
            PgResetStage::Probing { sql_success, attempt: 1 },
            PgResetAction::ProbeConnection { args: build_psql_args(p, "SELECT 1;"), after_pause: false },
        ),
        PgResetStage::Probing { sql_success, attempt } => match event {
            PgResetEvent::Ran(res) => match connection_probe(attempt, res) {
                ProbeVerdict::Connected => (PgResetStage::Done, PgResetAction::Finish(reset_outcome(sql_success, true))),
                ProbeVerdict::Retry => (
                    PgResetStage::Probing { sql_success, attempt: attempt + 1 },
                    PgResetAction::ProbeConnection { args: build_psql_args(p, "SELECT 1;"), after_pause: true },
                ),
                ProbeVerdict::GaveUp => (PgResetStage::Done, PgResetAction::Finish(reset_outcome(sql_success, false))),
            },
            _ => (PgResetStage::Done, PgResetAction::Finish(Err(String::new()))),
        },
        PgResetStage::Done => (PgResetStage::Done, PgResetAction::Finish(Err(String::new()))),
    }
}

/// The checks a reset makes before it touches anything: the new password is
/// checked first, then the instance is chosen (the selected one, else the
/// first with a path and a service), then its service and port are taken.
/// Only a password that passes can lead to `Ok`.
pub fn pg_reset_preflight<'a>(
    new_password: &str,
    selected: Option<&'a PostgresqlInstance>,
    instances: &'a [PostgresqlInstance],
    override_port: Option<u16>,
) -> (r: Result<(&'a PostgresqlInstance, String, Option<u16>), String>)
    ensures
        password_refusal(new_password@) matches Some(m) ==> (r matches Err(e) && e@ == m),
        r is Ok ==> password_refusal(new_password@) is None,
        r matches Ok(t) ==> t.0.service_name == Some(t.1) && t.2 == (if override_port is Some {
            override_port
        } else {
            t.0.port
        }),
        r matches Ok(t) ==> match selected {
            Some(s) => t.0 == s,
            None => exists|k: int| 0 <= k < instances@.len() && instances@[k] == *t.0 && usable(instances@[k].db_view()),
        },
        password_refusal(new_password@) is None && (selected matches Some(s) && s.service_name is None)
            ==> (r matches Err(e) && e@ == "所选实例没有服务名，无法重置密码"@),
{
    validate_password_strength(new_password)?;
    let instance = select_valid_instance(selected, instances, "PostgreSQL")?;
    match &instance.service_name {
        Some(name) => Ok((instance, name.clone(), resolve_port(instance, override_port))),
        None => Err(owned("所选实例没有服务名，无法重置密码")),
    }
}

} // verus!
