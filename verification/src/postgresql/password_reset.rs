//! Password reset (through a temporary `trust` `pg_hba.conf`) and password
//! change for the `postgres` role: SQL, `psql` arguments, and the decisions
//! taken on what `psql` and `net` report.
use vstd::prelude::*;
use crate::text::{push_str, push_all, from_chars, to_chars, contains, contains_str, decimal, decimal_chars};
use crate::mysql::cleaner::{ps_quoted, ps_quote};
use crate::mysql::password_reset::{password_refusal, result_view};
use crate::error::owned;
use crate::types::{PostgresqlInstance, ProcessOutput};

verus! {

/// Doubles every `'` of a password, as an SQL string literal needs.
pub fn escape_postgresql_password(password: &str) -> (r: String)
    ensures
        r@ == ps_quoted(password@),
{
    ps_quote(password)
}

/// Checks a new password's length (6 to 128 bytes) and words a refusal for the user.
pub fn validate_password_strength(password: &str) -> (r: Result<(), String>)
    ensures
        match password_refusal(password@) {
            None => r is Ok,
            Some(m) => r matches Err(e) && e@ == m,
        },
{
    crate::mysql::password_reset::validate_password_strength(password)
}

/// The port to use: the one given explicitly, else the instance's own.
pub fn resolve_port(instance: &PostgresqlInstance, override_port: Option<u16>) -> (r: Option<u16>)
    ensures
        r == (if override_port is Some { override_port } else { instance.port }),
{
    match override_port {
        Some(p) => Some(p),
        None => instance.port,
    }
}

/// The port to connect to: the known one, else PostgreSQL's default 5432.
pub fn port_or_default(port: Option<u16>) -> (r: u16)
    ensures
        r == (match port {
            Some(p) => p,
            None => 5432,
        }),
{
    match port {
        Some(p) => p,
        None => 5432,
    }
}

/// The statement that sets the `postgres` role's password.
pub open spec fn alter_password_sql(password: Seq<char>) -> Seq<char> {
    "ALTER USER postgres PASSWORD '"@ + ps_quoted(password) + "';"@
}

/// Builds the statement of [`alter_password_sql`].
pub fn build_alter_password_sql(password: &str) -> (r: String)
    ensures
        r@ == alter_password_sql(password@),
{
    let e = escape_postgresql_password(password);
    let mut s: Vec<char> = Vec::new();
    push_str(&mut s, "ALTER USER postgres PASSWORD '");
    push_str(&mut s, e.as_str());
    push_str(&mut s, "';");
    from_chars(&s)
}

/// The `pg_hba.conf` written for the reset: every local connection trusted.
pub const TRUST_HBA_CONFIG: &'static str = "# TYPE  DATABASE  USER  ADDRESS  METHOD\nhost    all       all   127.0.0.1/32  trust\nhost    all       all   ::1/128      trust\nlocal   all       all                  trust\n";

/// `psql` arguments running `sql` as `postgres` over TCP on 127.0.0.1:`port`.
pub open spec fn psql_args(port: u16, sql: Seq<char>) -> Seq<Seq<char>> {
    seq!["-U"@, "postgres"@, "-h"@, "127.0.0.1"@, "-p"@, decimal(port as nat), "-c"@, sql]
}

/// Builds the arguments of [`psql_args`].
pub fn build_psql_args(port: u16, sql: &str) -> (r: Vec<String>)
    ensures
        r.deep_view() == psql_args(port, sql@),
{
    let mut r: Vec<String> = Vec::new();
    r.push(owned("-U"));
    r.push(owned("postgres"));
    r.push(owned("-h"));
    r.push(owned("127.0.0.1"));
    r.push(owned("-p"));
    let d = decimal_chars(port as u64);
    r.push(from_chars(&d));
    r.push(owned("-c"));
    r.push(owned(sql));
    assert(r.deep_view() =~= psql_args(port, sql@));
    r
}

/// Why starting the service in trust mode failed, or none when it started.
pub open spec fn trust_start_failure_of(result: Result<ProcessOutput, String>) -> Option<Seq<char>> {
    match result {
        Ok(o) => if o.exit_code != 0 {
            Some("启动服务失败: "@ + o.stderr@)
        } else {
            None
        },
        Err(e) => Some("启动服务异常: "@ + e@),
    }
}

/// Judges `net start` in trust mode (see [`trust_start_failure_of`]); a failure
/// restores `pg_hba.conf` and the service and ends the reset with this message.
pub fn trust_start_failure(result: &Result<ProcessOutput, String>) -> (r: Option<String>)
    ensures
        match trust_start_failure_of(*result) {
            Some(m) => r matches Some(x) && x@ == m,
            None => r is None,
        },
{
    match result {
        Ok(o) => {
            if o.exit_code != 0 {
                let mut m: Vec<char> = Vec::new();
                push_str(&mut m, "启动服务失败: ");
                push_str(&mut m, o.stderr.as_str());
                Some(from_chars(&m))
            } else {
                None
            }
        },
        Err(e) => {
            let mut m: Vec<char> = Vec::new();
            push_str(&mut m, "启动服务异常: ");
            push_str(&mut m, e.as_str());
            Some(from_chars(&m))
        },
    }
}

/// The answer of a reset: success needs the `ALTER USER` to have run; the
/// connection test with the new password only changes the wording.
pub open spec fn pg_reset_answer(sql_success: bool, connection_ok: bool) -> Result<Seq<char>, Seq<char>> {
    if sql_success && connection_ok {
        Ok("密码重置成功，连接测试通过！"@)
    } else if sql_success {
        Ok("密码可能已成功设置！虽然连接测试失败，但 SQL 命令执行成功。请尝试手动连接。"@)
    } else {
        Err("密码重置失败，SQL 执行未通过，请查看日志获取详细信息"@)
    }
}

/// Words the answer of a reset (see [`pg_reset_answer`]).
pub fn reset_outcome(sql_success: bool, connection_ok: bool) -> (r: Result<String, String>)
    ensures
        result_view(r) == pg_reset_answer(sql_success, connection_ok),
{
    if sql_success && connection_ok {
        Ok(owned("密码重置成功，连接测试通过！"))
    } else if sql_success {
        Ok(owned("密码可能已成功设置！虽然连接测试失败，但 SQL 命令执行成功。请尝试手动连接。"))
    } else {
        Err(owned("密码重置失败，SQL 执行未通过，请查看日志获取详细信息"))
    }
}

/// Which password a `psql` run uses.
#[derive(Debug, Clone, Copy, PartialEq, Eq)]
pub enum Credential {
    Old,
    New,
}

/// Where a password change stands.
#[derive(Debug, Clone, Copy, PartialEq, Eq)]
pub enum PgChangeStage {
    Start,
    VerifyingOld,
    Altering,
    Testing,
    Done,
}

/// What the caller does next.
#[derive(Debug)]
pub enum PgChangeAction {
    /// Run `psql -c sql` with the given password.
    RunPsql(Credential, String),
    /// Stop and answer this.
    Finish(Result<String, String>),
}

/// The old password was refused: `psql` failed and its stderr speaks of
/// authentication or of the password.
pub open spec fn auth_refused(o: ProcessOutput) -> bool {
    o.exit_code != 0 && (contains(o.stderr@, "authentication failed"@) || contains(o.stderr@, "password"@))
}

/// The order of the stages: every step moves strictly forward.
pub open spec fn pg_stage_rank(s: PgChangeStage) -> nat {
    match s {
        PgChangeStage::Start => 0,
        PgChangeStage::VerifyingOld => 1,
        PgChangeStage::Altering => 2,
        PgChangeStage::Testing => 3,
        PgChangeStage::Done => 4,
    }
}

/// One step of a password change made with the old password: `SELECT 1;` checks
/// the old password (a refusal ends the change); `ALTER USER` runs; after it
/// succeeded, `SELECT 1;` with the new password words the answer.
pub fn pg_change_step(stage: PgChangeStage, new_password: &str, result: &Result<ProcessOutput, String>) -> (r: (
    PgChangeStage,
    PgChangeAction,
))
    requires
        stage != PgChangeStage::Done,
    ensures
        pg_stage_rank(r.0) > pg_stage_rank(stage),
        r.1 is Finish <==> r.0 == PgChangeStage::Done,
        (r.1 matches PgChangeAction::Finish(Ok(_))) ==> stage == PgChangeStage::Testing,
        r.0 == PgChangeStage::Testing ==> (*result matches Ok(o) && o.exit_code == 0),
        stage == PgChangeStage::Start ==> r.0 == PgChangeStage::VerifyingOld && (r.1 matches PgChangeAction::RunPsql(
            c,
            q,
        ) && c == Credential::Old && q@ == "SELECT 1;"@),
        stage == PgChangeStage::VerifyingOld ==> if *result matches Ok(o) && auth_refused(o) {
            r.1 matches PgChangeAction::Finish(Err(e)) && e@ == "旧密码不正确！请确认后重试，或使用密码重置功能。"@
        } else {
            r.0 == PgChangeStage::Altering && (r.1 matches PgChangeAction::RunPsql(c, q) && c
                == Credential::Old && q@ == alter_password_sql(new_password@))
        },
        stage == PgChangeStage::Altering ==> match *result {
            Ok(o) => if o.exit_code == 0 {
                r.0 == PgChangeStage::Testing && (r.1 matches PgChangeAction::RunPsql(c, q) && c
                    == Credential::New && q@ == "SELECT 1;"@)
            } else {
                r.1 matches PgChangeAction::Finish(Err(e)) && e@ == "密码修改失败: "@ + o.stderr@
            },
            Err(x) => r.1 matches PgChangeAction::Finish(Err(e)) && e@ == "执行异常: "@ + x@,
        },
        stage == PgChangeStage::Testing ==> (r.1 matches PgChangeAction::Finish(Ok(m)) && m@ == if (
        *result matches Ok(o) && o.exit_code == 0) {
            "密码修改成功，连接测试通过！"@
        } else {
            "密码可能已成功修改！虽然连接测试失败，但 SQL 命令执行成功。请尝试手动连接。"@
        }),
{
    match stage {
        PgChangeStage::Start => (
            PgChangeStage::VerifyingOld,
            PgChangeAction::RunPsql(Credential::Old, owned("SELECT 1;")),
        ),
        PgChangeStage::VerifyingOld => {
            let refused = match result {
                Ok(o) => {
                    let err = to_chars(o.stderr.as_str());
                    o.exit_code != 0 && (contains_str(&err, "authentication failed") || contains_str(
                        &err,
                        "password",
                    ))
                },
                Err(_) => false,
            };
            if refused {
                (
                    PgChangeStage::Done,
                    PgChangeAction::Finish(Err(owned("旧密码不正确！请确认后重试，或使用密码重置功能。"))),
                )
            } else {
                (
                    PgChangeStage::Altering,
                    PgChangeAction::RunPsql(Credential::Old, build_alter_password_sql(new_password)),
                )
            }
        },
        PgChangeStage::Altering => match result {
            Ok(o) => {
                if o.exit_code == 0 {
                    (PgChangeStage::Testing, PgChangeAction::RunPsql(Credential::New, owned("SELECT 1;")))
                } else {
                    let mut m: Vec<char> = Vec::new();
                    push_str(&mut m, "密码修改失败: ");
                    push_str(&mut m, o.stderr.as_str());
                    (PgChangeStage::Done, PgChangeAction::Finish(Err(from_chars(&m))))
                }
            },
            Err(x) => {
                let mut m: Vec<char> = Vec::new();
                push_str(&mut m, "执行异常: ");
                push_str(&mut m, x.as_str());
                (PgChangeStage::Done, PgChangeAction::Finish(Err(from_chars(&m))))
            },
        },
        _ => {
            let ok = match result {
                Ok(o) => o.exit_code == 0,
                Err(_) => false,
            };
            if ok {
                (PgChangeStage::Done, PgChangeAction::Finish(Ok(owned("密码修改成功，连接测试通过！"))))
            } else {
                (
                    PgChangeStage::Done,
                    PgChangeAction::Finish(
                        Ok(owned("密码可能已成功修改！虽然连接测试失败，但 SQL 命令执行成功。请尝试手动连接。")),
                    ),
                )
            }
        },
    }
}

/// The password statement sets `postgres`'s password to exactly what was
/// typed: it is `ALTER USER postgres PASSWORD '...';` whose quoted body reads
/// back as the password.
pub proof fn law_alter_sets_typed_password(password: Seq<char>)
    ensures
        exists|body: Seq<char>|
            alter_password_sql(password) == "ALTER USER postgres PASSWORD '"@ + body + "';"@
                && #[trigger] crate::mysql::cleaner::quoted_body_value(body) == Some(password),
{
    crate::mysql::cleaner::law_quoted_body_round_trip(password);
    let body = ps_quoted(password);
    assert(crate::mysql::cleaner::quoted_body_value(body) == Some(password));
}

} // verus!
