//! The course of a MySQL root password reset: the service is stopped, `mysqld`
//! runs without grant tables, the statements of the reset run through shared
//! memory, and the service is started again and tested with the new password.
//! The decisions are taken here; the caller performs each action and reports
//! what came of it.
use vstd::prelude::*;
use crate::error::owned;
use crate::text::{push_str, push_all, from_chars, decimal, decimal_chars};
use crate::types::{MySQLInstance, ProcessOutput};
use crate::mysql::password_reset::{
    ProcessProbe, StartupDecision, startup_poll, build_skip_grant_args, skip_grant_args,
    build_password_reset_sql, password_reset_sql, reset_sql_succeeded, reset_took_effect,
    build_verify_reset_sql, verify_reset_sql, reset_outcome, reset_answer, result_view,
    port_to_check, resolve_port, validate_password_strength, password_refusal,
};
use crate::detector_base::{select_valid_instance, usable, DbInstance};

verus! {

/// The query that lists the accounts before the reset.
pub const LIST_USERS_SQL: &'static str = "SELECT User, Host, LENGTH(User) AS user_len FROM mysql.user;";

/// Where a reset stands.
#[derive(Debug, Clone)]
pub enum ResetStage {
    /// Nothing has run yet.
    Start,
    /// The service is being stopped.
    StoppingService,
    /// Stray `mysqld` processes of the instance are being killed.
    KillingProcesses,
    /// The configuration file is being looked up.
    LocatingConfig,
    /// `mysqld` is being started without grant tables.
    Launching,
    /// The temporary server has been polled `second` times, one second apart.
    Polling { second: u64 },
    /// The accounts are being listed.
    ListingUsers,
    /// The statements of the reset are running.
    Resetting,
    /// The stored credentials are being shown (the statements took effect).
    Verifying,
    /// The temporary server is being stopped.
    StoppingTemporary { sql_success: bool },
    /// The instance's processes are being killed after the reset.
    CleaningUp { sql_success: bool },
    /// The service is being started again.
    StartingService { sql_success: bool },
    /// The caller waits for the service to run.
    WaitingForService { sql_success: bool },
    /// The caller waits for the port to accept connections.
    WaitingForPort { sql_success: bool },
    /// The new password is being tested.
    Testing { sql_success: bool },
    /// The reset is over.
    Done,
}

/// What the caller does next.
#[derive(Debug)]
pub enum ResetAction {
    /// Stop the service.
    StopService,
    /// Kill the instance's `mysqld` processes and wait for them to exit.
    KillProcesses,
    /// Find the instance's configuration file.
    FindConfig,
    /// Copy this configuration file aside when there is one, then start
    /// `mysqld` with these arguments.
    Launch { backup: Option<String>, args: Vec<String> },
    /// Sleep one second and poll the temporary server.
    SleepAndPoll,
    /// Run this SQL through the client over shared memory, as root without a password.
    RunSql(String),
    /// Stop the temporary server.
    StopTemporary,
    /// Start the service.
    StartService,
    /// Wait (up to 40 s) for the service to run.
    WaitForService,
    /// Wait (up to 40 s) for this port to accept connections.
    WaitForPort(u16),
    /// Test a connection with the new password.
    TestConnection,
    /// Stop the temporary server if `stop_temporary`, start the service again,
    /// and answer this error.
    RestoreAndFail { stop_temporary: bool, message: String },
    /// Answer this.
    Finish(Result<String, String>),
}

/// What the caller reports back.
#[derive(Debug)]
pub enum ResetEvent {
    /// The reset starts.
    Begin,
    /// A service or process step ended.
    Finished(Result<(), String>),
    /// The configuration file found, as the text of its path.
    ConfigFound(Option<String>),
    /// `mysqld` was started, or why it could not be.
    Launched(Result<(), String>),
    /// What a poll of the temporary server showed.
    Polled(ProcessProbe),
    /// The client ran: its output, or the reason it could not run.
    Ran(Result<ProcessOutput, String>),
    /// A wait ended (its outcome decides nothing).
    Waited,
    /// The connection test ended: whether it connected, or why it broke off.
    Tested(Result<bool, String>),
}

/// The event answers the action that led to the stage.
pub open spec fn reset_event_fits(stage: ResetStage, event: ResetEvent) -> bool {
    match stage {
        ResetStage::Start => event is Begin,
        ResetStage::StoppingService => event is Finished,
        ResetStage::KillingProcesses => event is Finished,
        ResetStage::LocatingConfig => event is ConfigFound,
        ResetStage::Launching => event is Launched,
        ResetStage::Polling { second } => event is Polled && 1 <= second <= 15,
        ResetStage::ListingUsers => event is Ran,
        ResetStage::Resetting => event is Ran,
        ResetStage::Verifying => event is Ran,
        ResetStage::StoppingTemporary { .. } => event is Finished,
        ResetStage::CleaningUp { .. } => event is Finished,
        ResetStage::StartingService { .. } => event is Finished,
        ResetStage::WaitingForService { .. } => event is Waited,
        ResetStage::WaitingForPort { .. } => event is Waited,
        ResetStage::Testing { .. } => event is Tested,
        ResetStage::Done => false,
    }
}

/// The order of the stages; polling moves forward with each second.
pub open spec fn reset_rank(stage: ResetStage) -> int {
    match stage {
        ResetStage::Start => 0,
        ResetStage::StoppingService => 1,
        ResetStage::KillingProcesses => 2,
        ResetStage::LocatingConfig => 3,
        ResetStage::Launching => 4,
        ResetStage::Polling { second } => 5 + second,
        ResetStage::ListingUsers => 30,
        ResetStage::Resetting => 31,
        ResetStage::Verifying => 32,
        ResetStage::StoppingTemporary { .. } => 33,
        ResetStage::CleaningUp { .. } => 34,
        ResetStage::StartingService { .. } => 35,
        ResetStage::WaitingForService { .. } => 36,
        ResetStage::WaitingForPort { .. } => 37,
        ResetStage::Testing { .. } => 38,
        ResetStage::Done => 39,
    }
}

/// The stages after the stop of the service was issued and before its start
/// went through: a failure here must start the service again.
pub open spec fn service_stopped(stage: ResetStage) -> bool {
    match stage {
        ResetStage::Start | ResetStage::WaitingForService { .. } | ResetStage::WaitingForPort { .. }
        | ResetStage::Testing { .. } | ResetStage::Done => false,
        _ => true,
    }
}

/// The stages at which the temporary server may still be running: it was
/// started, and killing the instance's processes has not gone through.
pub open spec fn temporary_may_run(stage: ResetStage) -> bool {
    match stage {
        ResetStage::Polling { .. } | ResetStage::ListingUsers | ResetStage::Resetting | ResetStage::Verifying
        | ResetStage::StoppingTemporary { .. } | ResetStage::CleaningUp { .. } => true,
        _ => false,
    }
}

/// The arguments of a client run over shared memory as root without a password.
pub open spec fn memory_client_args(sql: Seq<char>) -> Seq<Seq<char>> {
    seq!["-u"@, "root"@, "--protocol=memory"@, "-e"@, sql]
}

/// Builds the arguments of [`memory_client_args`].
pub fn build_memory_client_args(sql: &str) -> (r: Vec<String>)
    ensures
        r.deep_view() == memory_client_args(sql@),
{
    let mut r: Vec<String> = Vec::new();
    r.push(owned("-u"));
    r.push(owned("root"));
    r.push(owned("--protocol=memory"));
    r.push(owned("-e"));
    r.push(owned(sql));
    assert(r.deep_view() =~= memory_client_args(sql@));
    r
}

/// The service and port a reset works on: an instance without a service
/// cannot be reset; the port given overrides the instance's.
pub fn reset_target(instance: &MySQLInstance, override_port: Option<u16>) -> (r: Result<(String, Option<u16>), String>)
    ensures
        match instance.service_name {
            Some(s) => r matches Ok(t) && t.0 == s && t.1 == (if override_port is Some {
                override_port
            } else {
                instance.port
            }),
            None => r matches Err(e) && e@ == "所选实例没有服务名，无法重置密码"@,
        },
{
    match &instance.service_name {
        Some(s) => Ok((s.clone(), resolve_port(instance, override_port))),
        None => Err(owned("所选实例没有服务名，无法重置密码")),
    }
}

/// The checks a reset makes before it touches anything: the new password is
/// checked first, then the instance is chosen (the selected one, else the
/// first with a path and a service), then its service and port are taken.
/// Only a password that passes can lead to `Ok`.
pub fn reset_preflight<'a>(
    new_password: &str,
    selected: Option<&'a MySQLInstance>,
    instances: &'a [MySQLInstance],
    override_port: Option<u16>,
) -> (r: Result<(&'a MySQLInstance, String, Option<u16>), String>)
    ensures
        password_refusal(new_password@) matches Some(m) ==> (r matches Err(e) && e@ == m),
        r is Ok ==> password_refusal(new_password@) is None,
        r matches Ok(t) ==> t.0.service_name == Some(t.1) && t.2 == (if override_port is Some {
            override_port
        } else {
            t.0.port
        }),
        r matches Ok(t) ==> match selected {
            Some(s) => t.0 == s,
            None => exists|k: int| 0 <= k < instances@.len() && instances@[k] == *t.0 && usable(instances@[k].db_view()),
        },
        password_refusal(new_password@) is None && (selected matches Some(s) && s.service_name is None)
            ==> (r matches Err(e) && e@ == "所选实例没有服务名，无法重置密码"@),
{
    validate_password_strength(new_password)?;
    let instance = select_valid_instance(selected, instances, "MySQL")?;
    let (service, port) = reset_target(instance, override_port)?;
    Ok((instance, service, port))
}

fn prefixed(prefix: &str, text: &str) -> (r: String)
    ensures
        r@ == prefix@ + text@,
{
    let mut m: Vec<char> = Vec::new();
    push_str(&mut m, prefix);
    push_str(&mut m, text);
    from_chars(&m)
}

/// One step of a reset of the root password of MySQL `version` to
/// `new_password`, for the instance listening on `port`.
///
/// Every failure after the stop of the service was issued ends the reset after
/// the service has been restored (the temporary server stopped first when it
/// may still run): a failure to stop the service, to kill the instance's
/// processes or to start the service answers that failure; a temporary server
/// that could not be started, or that exited while it was polled, answers why.  The accounts are listed, then the statements of
/// [`password_reset_sql`] run; when they took effect the stored credentials are
/// shown.  The temporary server is stopped, the processes killed, the service
/// started; after the waits the connection test words the answer with
/// [`reset_answer`].
pub fn reset_password_step(
    stage: &ResetStage,
    version: &str,
    new_password: &str,
    port: Option<u16>,
    event: &ResetEvent,
) -> (r: (ResetStage, ResetAction))
    requires
        reset_event_fits(*stage, *event),
    ensures
        reset_rank(r.0) > reset_rank(*stage),
        (r.1 is Finish || r.1 is RestoreAndFail) <==> r.0 is Done,
        service_stopped(*stage) && r.0 is Done ==> r.1 is RestoreAndFail,
        r.1 is RestoreAndFail ==> service_stopped(*stage),
        r.1 matches ResetAction::RestoreAndFail { stop_temporary, .. } ==> stop_temporary == temporary_may_run(*stage),
        (r.1 matches ResetAction::Finish(Ok(_))) ==> stage is Testing,
        stage is Start ==> r.0 is StoppingService && r.1 is StopService,
        stage is StoppingService ==> match *event {
            ResetEvent::Finished(Ok(())) => r.0 is KillingProcesses && r.1 is KillProcesses,
            ResetEvent::Finished(Err(e)) => r.1 matches ResetAction::RestoreAndFail { stop_temporary, message }
                && !stop_temporary && message@ == e@,
            _ => true,
        },
        stage is KillingProcesses ==> match *event {
            ResetEvent::Finished(Ok(())) => r.0 is LocatingConfig && r.1 is FindConfig,
            ResetEvent::Finished(Err(e)) => r.1 matches ResetAction::RestoreAndFail { stop_temporary, message }
                && !stop_temporary && message@ == e@,
            _ => true,
        },
        stage is LocatingConfig ==> (*event matches ResetEvent::ConfigFound(c) && r.0 is Launching && (
        r.1 matches ResetAction::Launch { backup, args } && backup == c && args.deep_view()
            == skip_grant_args(
            match c {
                Some(p) => Some(p@),
                None => None,
            },
        ))),
        stage is Launching ==> match *event {
            ResetEvent::Launched(Ok(())) => r.0 == (ResetStage::Polling { second: 1 }) && r.1 is SleepAndPoll,
            ResetEvent::Launched(Err(e)) => r.1 matches ResetAction::RestoreAndFail { stop_temporary, message }
                && !stop_temporary && message@ == "启动 MySQL 失败: "@ + e@,
            _ => true,
        },
        *stage matches ResetStage::Polling { second } ==> match *event {
            ResetEvent::Polled(ProcessProbe::Exited) => r.1 matches ResetAction::RestoreAndFail {
                stop_temporary,
                message,
            } && stop_temporary && message@ == "MySQL 进程在启动后第 "@ + crate::text::decimal(second as nat)
                + " 秒退出，请查看上方错误输出"@,
            ResetEvent::Polled(ProcessProbe::Running) => if second < 6 {
                r.0 == (ResetStage::Polling { second: (second + 1) as u64 }) && r.1 is SleepAndPoll
            } else {
                r.0 is ListingUsers && (r.1 matches ResetAction::RunSql(q) && q@ == LIST_USERS_SQL@)
            },
            ResetEvent::Polled(ProcessProbe::Unknown) => r.0 is ListingUsers && (r.1 matches ResetAction::RunSql(
                q,
            ) && q@ == LIST_USERS_SQL@),
            _ => true,
        },
        stage is ListingUsers ==> r.0 is Resetting && (r.1 matches ResetAction::RunSql(q) && q@
            == password_reset_sql(version@, new_password@)),
        stage is Resetting ==> (*event matches ResetEvent::Ran(res) && if reset_took_effect(version@, res) {
            r.0 is Verifying && (r.1 matches ResetAction::RunSql(q) && q@ == verify_reset_sql(version@))
        } else {
            r.0 == (ResetStage::StoppingTemporary { sql_success: false }) && r.1 is StopTemporary
        }),
        stage is Verifying ==> r.0 == (ResetStage::StoppingTemporary { sql_success: true }) && r.1 is StopTemporary,
        *stage matches ResetStage::StoppingTemporary { sql_success } ==> r.0 == (ResetStage::CleaningUp {
            sql_success,
        }) && r.1 is KillProcesses,
        *stage matches ResetStage::CleaningUp { sql_success } ==> match *event {
            ResetEvent::Finished(Ok(())) => r.0 == (ResetStage::StartingService { sql_success })
                && r.1 is StartService,
            ResetEvent::Finished(Err(e)) => r.1 matches ResetAction::RestoreAndFail { stop_temporary, message }
                && stop_temporary && message@ == e@,
            _ => true,
        },
        *stage matches ResetStage::StartingService { sql_success } ==> match *event {
            ResetEvent::Finished(Ok(())) => r.0 == (ResetStage::WaitingForService { sql_success })
                && r.1 is WaitForService,
            ResetEvent::Finished(Err(e)) => r.1 matches ResetAction::RestoreAndFail { stop_temporary, message }
                && !stop_temporary && message@ == e@,
            _ => true,
        },
        *stage matches ResetStage::WaitingForService { sql_success } ==> r.0 == (ResetStage::WaitingForPort {
            sql_success,
        }) && r.1 == ResetAction::WaitForPort(
            match port {
                Some(p) => p,
                None => 3306,
            },
        ),
        *stage matches ResetStage::WaitingForPort { sql_success } ==> r.0 == (ResetStage::Testing { sql_success })
            && r.1 is TestConnection,
        *stage matches ResetStage::Testing { sql_success } ==> (*event matches ResetEvent::Tested(t) && (
        r.1 matches ResetAction::Finish(a) && result_view(a) == reset_answer(sql_success, t))),
{
    match stage {
        ResetStage::Start => (ResetStage::StoppingService, ResetAction::StopService),
        ResetStage::StoppingService => match event {
            ResetEvent::Finished(Ok(())) => (ResetStage::KillingProcesses, ResetAction::KillProcesses),
            ResetEvent::Finished(Err(e)) => (
                ResetStage::Done,
                ResetAction::RestoreAndFail { stop_temporary: false, message: e.clone() },
            ),
            _ => (
                ResetStage::Done,
                ResetAction::RestoreAndFail { stop_temporary: false, message: String::new() },
            ),
        },
        ResetStage::KillingProcesses => match event {
            ResetEvent::Finished(Ok(())) => (ResetStage::LocatingConfig, ResetAction::FindConfig),
            ResetEvent::Finished(Err(e)) => (
                ResetStage::Done,
                ResetAction::RestoreAndFail { stop_temporary: false, message: e.clone() },
            ),
            _ => (
                ResetStage::Done,
                ResetAction::RestoreAndFail { stop_temporary: false, message: String::new() },
            ),
        },
        ResetStage::LocatingConfig => match event {
            ResetEvent::ConfigFound(c) => {
                let args = match c {
                    Some(p) => build_skip_grant_args(Some(p.as_str())),
                    None => build_skip_grant_args(None),
                };
                (ResetStage::Launching, ResetAction::Launch { backup: c.clone(), args })
            },
            _ => (
                ResetStage::Done,
                ResetAction::RestoreAndFail { stop_temporary: false, message: String::new() },
            ),
        },
        ResetStage::Launching => match event {
            ResetEvent::Launched(Ok(())) => (ResetStage::Polling { second: 1 }, ResetAction::SleepAndPoll),
            ResetEvent::Launched(Err(e)) => (
                ResetStage::Done,
                ResetAction::RestoreAndFail {
                    stop_temporary: false,
                    message: prefixed("启动 MySQL 失败: ", e.as_str()),
                },
            ),
            _ => (
                ResetStage::Done,
                ResetAction::RestoreAndFail { stop_temporary: false, message: String::new() },
            ),
        },
        ResetStage::Polling { second } => match event {
            ResetEvent::Polled(probe) => match startup_poll(*second, *probe) {
                StartupDecision::Wait => (ResetStage::Polling { second: *second + 1 }, ResetAction::SleepAndPoll),
                StartupDecision::Proceed => (ResetStage::ListingUsers, ResetAction::RunSql(owned(LIST_USERS_SQL))),
                StartupDecision::Abort(m) => (
                    ResetStage::Done,
                    ResetAction::RestoreAndFail { stop_temporary: true, message: m },
                ),
            },
            _ => (
                ResetStage::Done,
                ResetAction::RestoreAndFail { stop_temporary: true, message: String::new() },
            ),
        },
        ResetStage::ListingUsers => (
            ResetStage::Resetting,
            ResetAction::RunSql(build_password_reset_sql(version, new_password)),
        ),
        ResetStage::Resetting => match event {
            ResetEvent::Ran(res) => {
                if reset_sql_succeeded(version, res) {
                    (ResetStage::Verifying, ResetAction::RunSql(build_verify_reset_sql(version)))
                } else {
                    (ResetStage::StoppingTemporary { sql_success: false }, ResetAction::StopTemporary)
                }
            },
            _ => (
                ResetStage::Done,
                ResetAction::RestoreAndFail { stop_temporary: true, message: String::new() },
            ),
        },
        ResetStage::Verifying => (ResetStage::StoppingTemporary { sql_success: true }, ResetAction::StopTemporary),
        ResetStage::StoppingTemporary { sql_success } => (
            ResetStage::CleaningUp { sql_success: *sql_success },
            ResetAction::KillProcesses,
        ),
        ResetStage::CleaningUp { sql_success } => match event {
            ResetEvent::Finished(Ok(())) => (
                ResetStage::StartingService { sql_success: *sql_success },
                ResetAction::StartService,
            ),
            ResetEvent::Finished(Err(e)) => (
                ResetStage::Done,
                ResetAction::RestoreAndFail { stop_temporary: true, message: e.clone() },
            ),
            _ => (
                ResetStage::Done,
                ResetAction::RestoreAndFail { stop_temporary: true, message: String::new() },
            ),
        },
        ResetStage::StartingService { sql_success } => match event {
            ResetEvent::Finished(Ok(())) => (
                ResetStage::WaitingForService { sql_success: *sql_success },
                ResetAction::WaitForService,
            ),
            ResetEvent::Finished(Err(e)) => (
                ResetStage::Done,
                ResetAction::RestoreAndFail { stop_temporary: false, message: e.clone() },
            ),
            _ => (
                ResetStage::Done,
                ResetAction::RestoreAndFail { stop_temporary: false, message: String::new() },
            ),
        },
        ResetStage::WaitingForService { sql_success } => (
            ResetStage::WaitingForPort { sql_success: *sql_success },
            ResetAction::WaitForPort(port_to_check(port)),
        ),
        ResetStage::WaitingForPort { sql_success } => (
            ResetStage::Testing { sql_success: *sql_success },
            ResetAction::TestConnection,
        ),
        ResetStage::Testing { sql_success } => match event {
            ResetEvent::Tested(t) => (ResetStage::Done, ResetAction::Finish(reset_outcome(*sql_success, t))),
            _ => (ResetStage::Done, ResetAction::Finish(Err(String::new()))),
        },
        ResetStage::Done => (ResetStage::Done, ResetAction::Finish(Err(String::new()))),
    }
}

/// The option file that carries the password of a connection test, so that it
/// never appears on a command line.
pub open spec fn client_option_file(password: Seq<char>) -> Seq<char> {
    "[client]\nuser=root\npassword="@ + password + "\n"@
}

/// Builds the text of [`client_option_file`].
pub fn build_client_option_file(password: &str) -> (r: String)
    ensures
        r@ == client_option_file(password@),
{
    let mut m: Vec<char> = Vec::new();
    push_str(&mut m, "[client]\nuser=root\npassword=");
    push_str(&mut m, password);
    push_str(&mut m, "\n");
    from_chars(&m)
}

/// The name of the temporary option file of the process `pid`.
pub fn option_file_name(pid: u32) -> (r: String)
    ensures
        r@ == "devtools_mysql_"@ + decimal(pid as nat) + ".cnf"@,
{
    let mut m: Vec<char> = Vec::new();
    push_str(&mut m, "devtools_mysql_");
    let d = decimal_chars(pid as u64);
    push_all(&mut m, &d);
    push_str(&mut m, ".cnf");
    from_chars(&m)
}

} // verus!
