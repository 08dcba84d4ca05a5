//! Password reset and change for MySQL: escaping, SQL construction, and the
//! decisions taken on the output of the `mysql` client.
use vstd::prelude::*;
use crate::text::{
    find_char, lemma_find_char, find_ch, slice, parse_unsigned, parse_u32, parse_u64,
    starts_with, starts_with_str, push_str, push_all, push_char, from_chars, to_chars,
    utf8_len, utf8_len_lt, is_ascii_alnum, lines, lines_of, trim, trim_chars, ascii_lower,
    to_ascii_lower, eq_str, vviews, contains, contains_str, decimal, decimal_chars, ends_with,
    digits_value,
};
use crate::error::owned;
use crate::process_manager::password_problem;
use crate::types::{MySQLInstance, ProcessOutput};

verus! {

// ---------------------------------------------------------------------------
// Escaping
// ---------------------------------------------------------------------------

/// How one character is written inside a single-quoted MySQL string literal.
pub open spec fn escape_char(c: char) -> Seq<char> {
    if c == '\'' {
        "''"@
    } else if c == '"' {
        "\\\""@
    } else if c == '\\' {
        "\\\\"@
    } else if c == '\0' {
        "\\0"@
    } else if c == '\n' {
        "\\n"@
    } else if c == '\r' {
        "\\r"@
    } else if c == '\t' {
        "\\t"@
    } else if c == '\x08' {
        "\\b"@
    } else if c == '\x1a' {
        "\\Z"@
    } else {
        seq![c]
    }
}

/// The escaped form of a whole password: each character escaped in turn.
pub open spec fn escaped(s: Seq<char>) -> Seq<char>
    decreases s.len(),
{
    if s.len() == 0 {
        seq![]
    } else {
        escaped(s.drop_last()) + escape_char(s.last())
    }
}

/// What MySQL reads for a backslash followed by `c` inside a string literal:
/// the named control characters, `\%` and `\_` kept as written, any other
/// character itself.
pub open spec fn mysql_escape_value(c: char) -> Seq<char> {
    if c == '0' {
        seq!['\0']
    } else if c == 'n' {
        seq!['\n']
    } else if c == 'r' {
        seq!['\r']
    } else if c == 't' {
        seq!['\t']
    } else if c == 'b' {
        seq!['\x08']
    } else if c == 'Z' {
        seq!['\x1a']
    } else if c == '%' || c == '_' {
        seq!['\\', c]
    } else {
        seq![c]
    }
}

/// The text a single-quoted MySQL string body stands for, read left to right:
/// `''` is one quote, a backslash escapes the next character (see
/// [`mysql_escape_value`]); a lone quote, or a backslash at the end, would end
/// the literal early (`None`).
pub open spec fn mysql_string_value(s: Seq<char>) -> Option<Seq<char>>
    decreases s.len(),
{
    if s.len() == 0 {
        Some(seq![])
    } else if s[0] == '\'' {
        if s.len() >= 2 && s[1] == '\'' {
            match mysql_string_value(s.skip(2)) {
                Some(r) => Some(seq!['\''] + r),
                None => None,
            }
        } else {
            None
        }
    } else if s[0] == '\\' {
        if s.len() >= 2 {
            match mysql_string_value(s.skip(2)) {
                Some(r) => Some(mysql_escape_value(s[1]) + r),
                None => None,
            }
        } else {
            None
        }
    } else {
        match mysql_string_value(s.drop_first()) {
            Some(r) => Some(seq![s[0]] + r),
            None => None,
        }
    }
}

proof fn lemma_escaped_cons(s: Seq<char>)
    requires
        s.len() > 0,
    ensures
        escaped(s) == escape_char(s[0]) + escaped(s.drop_first()),
    decreases s.len(),
{
    if s.len() == 1 {
        assert(s.drop_last() =~= Seq::<char>::empty());
        assert(s.drop_first() =~= Seq::<char>::empty());
    } else {
        lemma_escaped_cons(s.drop_last());
        assert(s.drop_last().drop_first() =~= s.drop_first().drop_last());
        assert(s.drop_first().last() == s.last());
        assert(s.drop_last()[0] == s[0]);
    }
}

/// A password escaped for MySQL and read back as the body of a single-quoted
/// literal is the password itself: the statement sets exactly what was typed.
pub proof fn law_escaped_password_round_trip(password: Seq<char>)
    ensures
        mysql_string_value(escaped(password)) == Some(password),
    decreases password.len(),
{
    reveal_strlit("''");
    reveal_strlit("\\\"");
    reveal_strlit("\\\\");
    reveal_strlit("\\0");
    reveal_strlit("\\n");
    reveal_strlit("\\r");
    reveal_strlit("\\t");
    reveal_strlit("\\b");
    reveal_strlit("\\Z");
    let s = password;
    if s.len() > 0 {
        lemma_escaped_cons(s);
        law_escaped_password_round_trip(s.drop_first());
        let e = escaped(s);
        let rest = escaped(s.drop_first());
        let c = s[0];
        if escape_char(c).len() == 2 {
            assert(e.skip(2) =~= rest);
        } else {
            assert(e.drop_first() =~= rest);
        }
        assert(seq![c] + s.drop_first() =~= s);
    } else {
        assert(escaped(s) =~= Seq::<char>::empty());
    }
}

/// Escapes a password for a single-quoted MySQL string literal.
pub fn escape_mysql_password(password: &str) -> (r: String)
    ensures
        r@ == escaped(password@),
{
    let v = to_chars(password);
    let mut out: Vec<char> = Vec::new();
    let mut i: usize = 0;
    assert(v@.take(0) =~= Seq::<char>::empty());
    while i < v.len()
        invariant
            i <= v.len(),
            v@ == password@,
            out@ == escaped(v@.take(i as int)),
        decreases v.len() - i,
    {
        assert(v@.take(i + 1).drop_last() =~= v@.take(i as int));
        assert(v@.take(i + 1).last() == v@[i as int]);
        let c = v[i];
        if c == '\'' {
            push_str(&mut out, "''");
        } else if c == '"' {
            push_str(&mut out, "\\\"");
        } else if c == '\\' {
            push_str(&mut out, "\\\\");
        } else if c == '\0' {
            push_str(&mut out, "\\0");
        } else if c == '\n' {
            push_str(&mut out, "\\n");
        } else if c == '\r' {
            push_str(&mut out, "\\r");
        } else if c == '\t' {
            push_str(&mut out, "\\t");
        } else if c == '\x08' {
            push_str(&mut out, "\\b");
        } else if c == '\x1a' {
            push_str(&mut out, "\\Z");
        } else {
            out.push(c);
        }
        i += 1;
    }
    assert(v@.take(v.len() as int) =~= v@);
    from_chars(&out)
}

/// Escaped password as a character vector.
fn escaped_chars(password: &str) -> (r: Vec<char>)
    ensures
        r@ == escaped(password@),
{
    let e = escape_mysql_password(password);
    to_chars(e.as_str())
}

// ---------------------------------------------------------------------------
// Validation
// ---------------------------------------------------------------------------

/// The message for a refused password, as the user sees it.
pub open spec fn password_refusal(password: Seq<char>) -> Option<Seq<char>> {
    match password_problem(password) {
        Some(m) => Some("验证失败: "@ + m),
        None => None,
    }
}

/// Checks a new password's length (6 to 128 bytes) and words a refusal for the user.
pub fn validate_password_strength(password: &str) -> (r: Result<(), String>)
    ensures
        match password_refusal(password@) {
            None => r is Ok,
            Some(m) => r matches Err(e) && e@ == m,
        },
{
    match crate::process_manager::validate_password_strength(password) {
        Ok(()) => Ok(()),
        Err(e) => {
            let m = e.to_user_message();
            Err(m)
        },
    }
}

/// Why a host name is refused, or `None`.  The length is in bytes.
pub open spec fn host_problem(host: Seq<char>) -> Option<Seq<char>> {
    if host.len() == 0 {
        Some("主机名不能为空"@)
    } else if utf8_len(host) > 253 {
        Some("主机名过长"@)
    } else if exists|i: int| 0 <= i < host.len() && !is_host_char(#[trigger] host[i]) {
        Some("主机名包含非法字符: "@ + host)
    } else {
        None
    }
}

/// A character allowed in a host name.
pub open spec fn is_host_char(c: char) -> bool {
    is_ascii_alnum(c) || c == '.' || c == '-' || c == '_' || c == '%'
}

/// Checks that a host name is non-empty, at most 253 bytes long and made of
/// ASCII letters, digits and `.`, `-`, `_`, `%` only.
pub fn validate_mysql_host(host: &str) -> (r: Result<(), String>)
    ensures
        match host_problem(host@) {
            None => r is Ok,
            Some(m) => r matches Err(e) && e@ == m,
        },
{
    let v = to_chars(host);
    if v.len() == 0 {
        return Err(owned("主机名不能为空"));
    }
    if !utf8_len_lt(&v, 254) {
        return Err(owned("主机名过长"));
    }
    let mut i: usize = 0;
    while i < v.len()
        invariant
            i <= v.len(),
            v@ == host@,
            host@.len() > 0,
            utf8_len(host@) <= 253,
            forall|j: int| 0 <= j < i ==> is_host_char(#[trigger] v@[j]),
        decreases v.len() - i,
    {
        let c = v[i];
        let ok = ('0' <= c && c <= '9') || ('a' <= c && c <= 'z') || ('A' <= c && c <= 'Z')
            || c == '.' || c == '-' || c == '_' || c == '%';
        if !ok {
            assert(!is_host_char(host@[i as int]));
            let mut m: Vec<char> = Vec::new();
            push_str(&mut m, "主机名包含非法字符: ");
            push_all(&mut m, &v);
            return Err(from_chars(&m));
        }
        i += 1;
    }
    Ok(())
}

// ---------------------------------------------------------------------------
// Versions
// ---------------------------------------------------------------------------

/// The text before the first `.` (all of it when there is none).
pub open spec fn first_piece(s: Seq<char>) -> Seq<char> {
    match find_char(s, '.') {
        Some(i) => s.take(i as int),
        None => s,
    }
}

/// The major version number, when the first piece parses as a `u32`.
pub open spec fn major_version(version: Seq<char>) -> Option<nat> {
    parse_unsigned(first_piece(version), 0xffff_ffff)
}

/// The major version is known and at least `n`.
pub open spec fn major_at_least(version: Seq<char>, n: nat) -> bool {
    match major_version(version) {
        Some(m) => m >= n,
        None => false,
    }
}

fn major_of(version: &str) -> (r: Option<u32>)
    ensures
        match r {
            Some(m) => major_version(version@) == Some(m as nat),
            None => major_version(version@) is None,
        },
{
    let v = to_chars(version);
    proof {
        lemma_find_char(v@, '.');
    }
    let head = match find_ch(&v, '.') {
        Some(k) => slice(&v, 0, k),
        None => v.clone(),
    };
    assert(head@ == first_piece(version@));
    parse_u32(&head)
}

/// MySQL 8.0 or later (9.x included): `PASSWORD()` is gone, `ALTER USER` is needed.
pub fn is_mysql_8_or_higher(version: &str) -> (r: bool)
    ensures
        r == major_at_least(version@, 8),
{
    match major_of(version) {
        Some(m) => m >= 8,
        None => false,
    }
}

/// MySQL 9.0 or later: only `caching_sha2_password` remains.
pub fn is_mysql_9_or_higher(version: &str) -> (r: bool)
    ensures
        r == major_at_least(version@, 9),
{
    match major_of(version) {
        Some(m) => m >= 9,
        None => false,
    }
}

/// The port to use: the one given explicitly, else the instance's own.
pub fn resolve_port(instance: &MySQLInstance, override_port: Option<u16>) -> (r: Option<u16>)
    ensures
        r == (if override_port is Some { override_port } else { instance.port }),
{
    match override_port {
        Some(p) => Some(p),
        None => instance.port,
    }
}

// ---------------------------------------------------------------------------
// SQL
// ---------------------------------------------------------------------------

/// The statements that reset root's password on a server started without grant
/// tables, by generation of the server.
pub open spec fn password_reset_sql(version: Seq<char>, password: Seq<char>) -> Seq<char> {
    let e = escaped(password);
    if major_at_least(version, 9) {
        "UPDATE mysql.user SET authentication_string='', plugin='caching_sha2_password' WHERE User='root'; SELECT ROW_COUNT() AS affected_rows; FLUSH PRIVILEGES; ALTER USER 'root'@'localhost' IDENTIFIED BY '"@
            + e + "'; ALTER USER 'root'@'127.0.0.1' IDENTIFIED BY '"@ + e
            + "'; ALTER USER 'root'@'%' IDENTIFIED BY '"@ + e + "';"@
    } else if major_at_least(version, 8) {
        "UPDATE mysql.user SET authentication_string='', plugin='mysql_native_password' WHERE User='root'; SELECT ROW_COUNT() AS affected_rows; FLUSH PRIVILEGES; ALTER USER 'root'@'localhost' IDENTIFIED WITH mysql_native_password BY '"@
            + e + "'; ALTER USER 'root'@'127.0.0.1' IDENTIFIED WITH mysql_native_password BY '"@
            + e + "'; ALTER USER 'root'@'%' IDENTIFIED WITH mysql_native_password BY '"@ + e
            + "';"@
    } else if starts_with(version, "5.7"@) {
        "UPDATE mysql.user SET authentication_string=PASSWORD('"@ + e
            + "'), plugin='mysql_native_password', password_expired='N' WHERE User='root'; SELECT ROW_COUNT() AS affected_rows; FLUSH PRIVILEGES;"@
    } else {
        "UPDATE mysql.user SET Password=PASSWORD('"@ + e
            + "'), plugin='mysql_native_password', password_expired='N' WHERE User='root'; SELECT ROW_COUNT() AS affected_rows; FLUSH PRIVILEGES;"@
    }
}

/// Builds the statements that reset root's password (see [`password_reset_sql`]).
pub fn build_password_reset_sql(version: &str, new_password: &str) -> (r: String)
    ensures
        r@ == password_reset_sql(version@, new_password@),
{
    let e = escaped_chars(new_password);
    let vv = to_chars(version);
    let mut s: Vec<char> = Vec::new();
    if is_mysql_9_or_higher(version) {
        push_str(&mut s, "UPDATE mysql.user SET authentication_string='', plugin='caching_sha2_password' WHERE User='root'; SELECT ROW_COUNT() AS affected_rows; FLUSH PRIVILEGES; ALTER USER 'root'@'localhost' IDENTIFIED BY '");
        push_all(&mut s, &e);
        push_str(&mut s, "'; ALTER USER 'root'@'127.0.0.1' IDENTIFIED BY '");
        push_all(&mut s, &e);
        push_str(&mut s, "'; ALTER USER 'root'@'%' IDENTIFIED BY '");
        push_all(&mut s, &e);
        push_str(&mut s, "';");
    } else if is_mysql_8_or_higher(version) {
        push_str(&mut s, "UPDATE mysql.user SET authentication_string='', plugin='mysql_native_password' WHERE User='root'; SELECT ROW_COUNT() AS affected_rows; FLUSH PRIVILEGES; ALTER USER 'root'@'localhost' IDENTIFIED WITH mysql_native_password BY '");
        push_all(&mut s, &e);
        push_str(&mut s, "'; ALTER USER 'root'@'127.0.0.1' IDENTIFIED WITH mysql_native_password BY '");
        push_all(&mut s, &e);
        push_str(&mut s, "'; ALTER USER 'root'@'%' IDENTIFIED WITH mysql_native_password BY '");
        push_all(&mut s, &e);
        push_str(&mut s, "';");
    } else if starts_with_str(&vv, "5.7") {
        push_str(&mut s, "UPDATE mysql.user SET authentication_string=PASSWORD('");
        push_all(&mut s, &e);
        push_str(&mut s, "'), plugin='mysql_native_password', password_expired='N' WHERE User='root'; SELECT ROW_COUNT() AS affected_rows; FLUSH PRIVILEGES;");
    } else {
        push_str(&mut s, "UPDATE mysql.user SET Password=PASSWORD('");
        push_all(&mut s, &e);
        push_str(&mut s, "'), plugin='mysql_native_password', password_expired='N' WHERE User='root'; SELECT ROW_COUNT() AS affected_rows; FLUSH PRIVILEGES;");
    }
    let r = from_chars(&s);
    assert(r@ =~= password_reset_sql(version@, new_password@));
    r
}

/// The script that changes the password of every root account while logged in,
/// by generation of the server.
pub open spec fn safe_change_password_sql(version: Seq<char>, password: Seq<char>) -> Seq<char> {
    let e = escaped(password);
    if major_at_least(version, 8) {
        "-- MySQL 8.0+ 安全密码修改方式\nSET @new_password = '"@ + e
            + "';\n-- 生成 ALTER USER 语句修改所有 root 用户\nSET @sql = NULL;\nSELECT GROUP_CONCAT(CONCAT('ALTER USER ''', User, '''@''', Host, ''' IDENTIFIED BY ', QUOTE(@new_password), ';') SEPARATOR ' ')\nINTO @sql FROM mysql.user WHERE User='root';\nPREPARE stmt FROM @sql;\nEXECUTE stmt;\nDEALLOCATE PREPARE stmt;\n-- 统计受影响的行数\nSELECT COUNT(*) AS affected_rows FROM mysql.user WHERE User='root';\nFLUSH PRIVILEGES;"@
    } else if starts_with(version, "5.7"@) {
        "-- MySQL 5.7 密码修改方式\nUPDATE mysql.user SET authentication_string=PASSWORD('"@ + e
            + "'), plugin='mysql_native_password' WHERE User='root';\nSELECT ROW_COUNT() AS affected_rows;\nFLUSH PRIVILEGES;"@
    } else {
        "-- MySQL 5.6 及以下密码修改方式\nUPDATE mysql.user SET Password=PASSWORD('"@ + e
            + "'), plugin='mysql_native_password' WHERE User='root';\nSELECT ROW_COUNT() AS affected_rows;\nFLUSH PRIVILEGES;"@
    }
}

/// Builds the script that changes every root account's password (see
/// [`safe_change_password_sql`]).
pub fn build_safe_change_password_sql(version: &str, new_password: &str) -> (r: String)
    ensures
        r@ == safe_change_password_sql(version@, new_password@),
{
    let e = escaped_chars(new_password);
    let vv = to_chars(version);
    let mut s: Vec<char> = Vec::new();
    if is_mysql_8_or_higher(version) {
        push_str(&mut s, "-- MySQL 8.0+ 安全密码修改方式\nSET @new_password = '");
        push_all(&mut s, &e);
        push_str(&mut s, "';\n-- 生成 ALTER USER 语句修改所有 root 用户\nSET @sql = NULL;\nSELECT GROUP_CONCAT(CONCAT('ALTER USER ''', User, '''@''', Host, ''' IDENTIFIED BY ', QUOTE(@new_password), ';') SEPARATOR ' ')\nINTO @sql FROM mysql.user WHERE User='root';\nPREPARE stmt FROM @sql;\nEXECUTE stmt;\nDEALLOCATE PREPARE stmt;\n-- 统计受影响的行数\nSELECT COUNT(*) AS affected_rows FROM mysql.user WHERE User='root';\nFLUSH PRIVILEGES;");
    } else if starts_with_str(&vv, "5.7") {
        push_str(&mut s, "-- MySQL 5.7 密码修改方式\nUPDATE mysql.user SET authentication_string=PASSWORD('");
        push_all(&mut s, &e);
        push_str(&mut s, "'), plugin='mysql_native_password' WHERE User='root';\nSELECT ROW_COUNT() AS affected_rows;\nFLUSH PRIVILEGES;");
    } else {
        push_str(&mut s, "-- MySQL 5.6 及以下密码修改方式\nUPDATE mysql.user SET Password=PASSWORD('");
        push_all(&mut s, &e);
        push_str(&mut s, "'), plugin='mysql_native_password' WHERE User='root';\nSELECT ROW_COUNT() AS affected_rows;\nFLUSH PRIVILEGES;");
    }
    let r = from_chars(&s);
    assert(r@ =~= safe_change_password_sql(version@, new_password@));
    r
}

/// The one statement that changes the password of `'root'@host`.
pub open spec fn simple_alter_sql(version: Seq<char>, password: Seq<char>, host: Seq<char>) -> Seq<char> {
    let e = escaped(password);
    if major_at_least(version, 8) {
        "ALTER USER 'root'@'"@ + host + "' IDENTIFIED BY '"@ + e + "'; FLUSH PRIVILEGES;"@
    } else {
        "SET PASSWORD FOR 'root'@'"@ + host + "' = PASSWORD('"@ + e + "'); FLUSH PRIVILEGES;"@
    }
}

/// Builds the statement that changes `'root'@host`'s password; a host name that
/// [`validate_mysql_host`] refuses is refused here with the same message.
pub fn build_simple_alter_sql(version: &str, new_password: &str, host: &str) -> (r: Result<String, String>)
    ensures
        match host_problem(host@) {
            Some(m) => r matches Err(e) && e@ == m,
            None => r matches Ok(s) && s@ == simple_alter_sql(version@, new_password@, host@),
        },
{
    match validate_mysql_host(host) {
        Err(e) => return Err(e),
        Ok(()) => {},
    }
    let e = escaped_chars(new_password);
    let mut s: Vec<char> = Vec::new();
    if is_mysql_8_or_higher(version) {
        push_str(&mut s, "ALTER USER 'root'@'");
        push_str(&mut s, host);
        push_str(&mut s, "' IDENTIFIED BY '");
        push_all(&mut s, &e);
        push_str(&mut s, "'; FLUSH PRIVILEGES;");
    } else {
        push_str(&mut s, "SET PASSWORD FOR 'root'@'");
        push_str(&mut s, host);
        push_str(&mut s, "' = PASSWORD('");
        push_all(&mut s, &e);
        push_str(&mut s, "'); FLUSH PRIVILEGES;");
    }
    let r = from_chars(&s);
    assert(r@ =~= simple_alter_sql(version@, new_password@, host@));
    Ok(r)
}

/// The `UPDATE` that changes `'root'@'localhost'` on servers older than 8.0.
pub open spec fn legacy_update_sql(version: Seq<char>, password: Seq<char>) -> Seq<char> {
    let e = escaped(password);
    if starts_with(version, "5.7"@) {
        "UPDATE mysql.user SET authentication_string=PASSWORD('"@ + e
            + "') WHERE User='root' AND Host='localhost'; FLUSH PRIVILEGES;"@
    } else {
        "UPDATE mysql.user SET Password=PASSWORD('"@ + e
            + "') WHERE User='root' AND Host='localhost'; FLUSH PRIVILEGES;"@
    }
}

/// Builds the `UPDATE` of [`legacy_update_sql`].
pub fn build_legacy_update_sql(version: &str, new_password: &str) -> (r: String)
    ensures
        r@ == legacy_update_sql(version@, new_password@),
{
    let e = escaped_chars(new_password);
    let vv = to_chars(version);
    let mut s: Vec<char> = Vec::new();
    if starts_with_str(&vv, "5.7") {
        push_str(&mut s, "UPDATE mysql.user SET authentication_string=PASSWORD('");
        push_all(&mut s, &e);
        push_str(&mut s, "') WHERE User='root' AND Host='localhost'; FLUSH PRIVILEGES;");
    } else {
        push_str(&mut s, "UPDATE mysql.user SET Password=PASSWORD('");
        push_all(&mut s, &e);
        push_str(&mut s, "') WHERE User='root' AND Host='localhost'; FLUSH PRIVILEGES;");
    }
    let r = from_chars(&s);
    assert(r@ =~= legacy_update_sql(version@, new_password@));
    r
}

// ---------------------------------------------------------------------------
// Reading the client's output
// ---------------------------------------------------------------------------

/// The first line, among `ls`, that is neither blank nor the column header
/// `affected_rows` (ASCII case ignored) and parses as a `u64`.
pub open spec fn affected_rows_in(ls: Seq<Seq<char>>) -> Option<nat>
    decreases ls.len(),
{
    if ls.len() == 0 {
        None
    } else {
        let t = trim(ls[0]);
        if t.len() == 0 || ascii_lower(t) == "affected_rows"@ {
            affected_rows_in(ls.drop_first())
        } else {
            match parse_unsigned(t, 0xffff_ffff_ffff_ffff) {
                Some(n) => Some(n),
                None => affected_rows_in(ls.drop_first()),
            }
        }
    }
}

/// The affected-row count printed by the client: see [`affected_rows_in`].
pub fn parse_affected_rows(stdout: &str) -> (r: Option<u64>)
    ensures
        match r {
            Some(n) => affected_rows_in(lines(stdout@)) == Some(n as nat),
            None => affected_rows_in(lines(stdout@)) is None,
        },
{
    let v = to_chars(stdout);
    let ls = lines_of(&v);
    let ghost all = vviews(ls@);
    let mut i: usize = 0;
    assert(all.skip(0) =~= all);
    while i < ls.len()
        invariant
            i <= ls.len(),
            all == vviews(ls@),
            all == lines(stdout@),
            affected_rows_in(all) == affected_rows_in(all.skip(i as int)),
        decreases ls.len() - i,
    {
        assert(all.skip(i as int)[0] == ls@[i as int]@);
        assert(all.skip(i as int).drop_first() =~= all.skip(i + 1));
        let t = trim_chars(&ls[i]);
        let lower = to_ascii_lower(&t);
        if t.len() > 0 && !eq_str(&lower, "affected_rows") {
            match parse_u64(&t) {
                Some(n) => {
                    return Some(n);
                },
                None => {},
            }
        }
        i += 1;
    }
    assert(all.skip(ls.len() as int) =~= Seq::<Seq<char>>::empty());
    None
}

// ---------------------------------------------------------------------------
// Password reset without grant tables
// ---------------------------------------------------------------------------

/// The arguments that start `mysqld` without grant tables, reading `config`
/// (the text of the configuration file's path) when there is one.
pub open spec fn skip_grant_args(config: Option<Seq<char>>) -> Seq<Seq<char>> {
    let tail = seq!["--skip-grant-tables"@, "--shared-memory"@, "--skip-networking"@];
    match config {
        Some(c) => seq!["--defaults-file="@ + c] + tail,
        None => tail,
    }
}

/// Builds the arguments of [`skip_grant_args`].
pub fn build_skip_grant_args(config: Option<&str>) -> (r: Vec<String>)
    ensures
        r.deep_view() == skip_grant_args(
            match config {
                Some(c) => Some(c@),
                None => None,
            },
        ),
{
    let mut r: Vec<String> = Vec::new();
    match config {
        Some(c) => {
            let mut a: Vec<char> = Vec::new();
            push_str(&mut a, "--defaults-file=");
            push_str(&mut a, c);
            r.push(from_chars(&a));
        },
        None => {},
    }
    r.push(owned("--skip-grant-tables"));
    r.push(owned("--shared-memory"));
    r.push(owned("--skip-networking"));
    assert(r.deep_view() =~= skip_grant_args(
        match config {
            Some(c) => Some(c@),
            None => None,
        },
    ));
    r
}

/// What a poll of the server started without grant tables showed.
#[derive(Debug, Clone, Copy, PartialEq, Eq)]
pub enum ProcessProbe {
    /// The process has exited.
    Exited,
    /// The process is still running.
    Running,
    /// Its state could not be read.
    Unknown,
}

/// What to do after a poll of the server started without grant tables.
#[derive(Debug, Clone)]
pub enum StartupDecision {
    /// Sleep one second and poll again.
    Wait,
    /// Go on with the reset.
    Proceed,
    /// Restore the service and fail with this message.
    Abort(String),
}

/// Decides after the poll made `second` seconds (1 to 15) after the start: a
/// process that exited aborts the reset; one that has run for six seconds, or
/// for the whole fifteen, is taken as started; an unreadable state stops the
/// polling and the reset goes on.
pub fn startup_poll(second: u64, probe: ProcessProbe) -> (r: StartupDecision)
    requires
        1 <= second <= 15,
    ensures
        probe == ProcessProbe::Exited ==> (r matches StartupDecision::Abort(m) && m@
            == "MySQL 进程在启动后第 "@ + decimal(second as nat) + " 秒退出，请查看上方错误输出"@),
        probe == ProcessProbe::Running ==> (if second >= 6 {
            r is Proceed
        } else {
            r is Wait
        }),
        probe == ProcessProbe::Unknown ==> r is Proceed,
        r is Wait ==> second < 6,
{
    match probe {
        ProcessProbe::Exited => {
            let mut m: Vec<char> = Vec::new();
            push_str(&mut m, "MySQL 进程在启动后第 ");
            let d = decimal_chars(second);
            push_all(&mut m, &d);
            push_str(&mut m, " 秒退出，请查看上方错误输出");
            StartupDecision::Abort(from_chars(&m))
        },
        ProcessProbe::Running => {
            if second >= 6 {
                StartupDecision::Proceed
            } else {
                StartupDecision::Wait
            }
        },
        ProcessProbe::Unknown => StartupDecision::Proceed,
    }
}

/// The reset statements took effect: the client exited with 0 and either
/// reported a positive row count, or the server is 8.0 or later (whose
/// `ALTER USER` prints no count).
pub open spec fn reset_took_effect(version: Seq<char>, result: Result<ProcessOutput, String>) -> bool {
    match result {
        Ok(o) => o.exit_code == 0 && match affected_rows_in(lines(o.stdout@)) {
            Some(n) => n > 0 || major_at_least(version, 8),
            None => major_at_least(version, 8),
        },
        Err(_) => false,
    }
}

/// Judges the client's run of the reset statements (see [`reset_took_effect`]).
pub fn reset_sql_succeeded(version: &str, result: &Result<ProcessOutput, String>) -> (r: bool)
    ensures
        r == reset_took_effect(version@, *result),
{
    match result {
        Ok(o) => {
            if o.exit_code != 0 {
                return false;
            }
            let modern = is_mysql_8_or_higher(version);
            match parse_affected_rows(o.stdout.as_str()) {
                Some(n) => n > 0 || modern,
                None => modern,
            }
        },
        Err(_) => false,
    }
}

/// The query that shows root's stored credentials after a reset.
pub open spec fn verify_reset_sql(version: Seq<char>) -> Seq<char> {
    if starts_with(version, "5.7"@) || major_at_least(version, 8) {
        "SELECT User, Host, LEFT(authentication_string, 10) AS pass_prefix FROM mysql.user WHERE User='root';"@
    } else {
        "SELECT User, Host, LEFT(Password, 10) AS pass_prefix FROM mysql.user WHERE User='root';"@
    }
}

/// Builds the query of [`verify_reset_sql`].
pub fn build_verify_reset_sql(version: &str) -> (r: String)
    ensures
        r@ == verify_reset_sql(version@),
{
    let vv = to_chars(version);
    if starts_with_str(&vv, "5.7") || is_mysql_8_or_higher(version) {
        owned("SELECT User, Host, LEFT(authentication_string, 10) AS pass_prefix FROM mysql.user WHERE User='root';")
    } else {
        owned("SELECT User, Host, LEFT(Password, 10) AS pass_prefix FROM mysql.user WHERE User='root';")
    }
}

/// The answer of a reset, from whether the statements took effect and from the
/// connection test made with the new password after the service restarted.
pub open spec fn reset_answer(sql_success: bool, test: Result<bool, String>) -> Result<Seq<char>, Seq<char>> {
    match test {
        Ok(true) => Ok("密码重置成功，连接测试通过！"@),
        Ok(false) => if sql_success {
            Ok("密码可能已成功设置！虽然连接测试失败，但 SQL 命令执行成功。请尝试手动连接。"@)
        } else {
            Err("密码重置失败，连接测试未通过，请查看日志获取详细信息"@)
        },
        Err(e) => if sql_success {
            Ok("密码可能已成功设置！虽然连接测试异常，但 SQL 命令执行成功。请尝试手动连接。"@)
        } else {
            Err("密码重置失败，连接测试异常: "@ + e@)
        },
    }
}

/// The view of a `Result<String, String>`.
pub open spec fn result_view(r: Result<String, String>) -> Result<Seq<char>, Seq<char>> {
    match r {
        Ok(s) => Ok(s@),
        Err(e) => Err(e@),
    }
}

/// Words the answer of a reset (see [`reset_answer`]).
pub fn reset_outcome(sql_success: bool, test: &Result<bool, String>) -> (r: Result<String, String>)
    ensures
        result_view(r) == reset_answer(sql_success, *test),
{
    match test {
        Ok(true) => Ok(owned("密码重置成功，连接测试通过！")),
        Ok(false) => {
            if sql_success {
                Ok(owned("密码可能已成功设置！虽然连接测试失败，但 SQL 命令执行成功。请尝试手动连接。"))
            } else {
                Err(owned("密码重置失败，连接测试未通过，请查看日志获取详细信息"))
            }
        },
        Err(e) => {
            if sql_success {
                Ok(owned("密码可能已成功设置！虽然连接测试异常，但 SQL 命令执行成功。请尝试手动连接。"))
            } else {
                let mut m: Vec<char> = Vec::new();
                push_str(&mut m, "密码重置失败，连接测试异常: ");
                push_str(&mut m, e.as_str());
                Err(from_chars(&m))
            }
        },
    }
}

/// The port probed after the restart: the instance's, else MySQL's default 3306.
pub fn port_to_check(port: Option<u16>) -> (r: u16)
    ensures
        r == (match port {
            Some(p) => p,
            None => 3306,
        }),
{
    match port {
        Some(p) => p,
        None => 3306,
    }
}

// ---------------------------------------------------------------------------
// Client invocations
// ---------------------------------------------------------------------------

/// The connection arguments: the option file holding the password, then, for a
/// known port, a TCP connection to 127.0.0.1 on it.
pub open spec fn connection_args(config: Seq<char>, port: Option<u16>) -> Seq<Seq<char>> {
    seq!["--defaults-file="@ + config] + port_args(port)
}

/// `-h127.0.0.1 -P <port>` for a known port, nothing otherwise.
pub open spec fn port_args(port: Option<u16>) -> Seq<Seq<char>> {
    match port {
        Some(p) => seq!["-h127.0.0.1"@, "-P"@, decimal(p as nat)],
        None => seq![],
    }
}

fn push_port_args(r: &mut Vec<String>, port: Option<u16>)
    ensures
        final(r).deep_view() == old(r).deep_view() + port_args(port),
{
    let ghost before = r.deep_view();
    match port {
        Some(p) => {
            r.push(owned("-h127.0.0.1"));
            r.push(owned("-P"));
            let d = decimal_chars(p as u64);
            r.push(from_chars(&d));
        },
        None => {},
    }
    assert(r.deep_view() =~= before + port_args(port));
}

/// The arguments of the connection test: option file, `-e "SELECT 1;"`, then the port.
pub fn connection_test_args(config: &str, port: Option<u16>) -> (r: Vec<String>)
    ensures
        r.deep_view() == seq!["--defaults-file="@ + config@, "-e"@, "SELECT 1;"@] + port_args(port),
{
    let mut r: Vec<String> = Vec::new();
    let mut a: Vec<char> = Vec::new();
    push_str(&mut a, "--defaults-file=");
    push_str(&mut a, config);
    r.push(from_chars(&a));
    r.push(owned("-e"));
    r.push(owned("SELECT 1;"));
    assert(r.deep_view() =~= seq!["--defaults-file="@ + config@, "-e"@, "SELECT 1;"@]);
    push_port_args(&mut r, port);
    r
}

/// The arguments that run `sql` through the client: connection arguments, then `-e sql`.
pub fn client_sql_args(config: &str, port: Option<u16>, sql: &str) -> (r: Vec<String>)
    ensures
        r.deep_view() == connection_args(config@, port) + seq!["-e"@, sql@],
{
    let mut r: Vec<String> = Vec::new();
    let mut a: Vec<char> = Vec::new();
    push_str(&mut a, "--defaults-file=");
    push_str(&mut a, config);
    r.push(from_chars(&a));
    assert(r.deep_view() =~= seq!["--defaults-file="@ + config@]);
    push_port_args(&mut r, port);
    let ghost mid = r.deep_view();
    r.push(owned("-e"));
    r.push(owned(sql));
    assert(r.deep_view() =~= mid + seq!["-e"@, sql@]);
    r
}

// ---------------------------------------------------------------------------
// Password change with the old password
// ---------------------------------------------------------------------------

/// Which statement changed the password.
#[derive(Debug, Clone, Copy, PartialEq, Eq)]
pub enum ChangeRoute {
    /// `ALTER USER` / `SET PASSWORD` on `'root'@'localhost'`.
    Direct,
    /// The script over every root account (8.0 and later).
    Dynamic,
    /// The `UPDATE` of `mysql.user` (before 8.0).
    Legacy,
}

/// Where a password change stands.
#[derive(Debug, Clone)]
pub enum ChangeStage {
    /// Nothing has run yet.
    Start,
    /// `SELECT 1;` runs with the old password.
    VerifyingOld,
    /// The direct statement runs.
    Altering,
    /// The direct statement failed with `first_error` on stderr; `route` runs.
    FallingBack { route: ChangeRoute, first_error: String },
    /// A statement succeeded through `route`; the connection test runs.
    Testing { route: ChangeRoute },
    /// The change is over.
    Done,
}

/// What the caller does next.
#[derive(Debug)]
pub enum ChangeAction {
    /// Run this SQL through the client with the old password.
    RunSql(String),
    /// Run the connection test with the new password.
    TestConnection,
    /// Stop and answer this.
    Finish(Result<String, String>),
}

/// What the caller reports back.
#[derive(Debug)]
pub enum ChangeEvent {
    /// The change starts.
    Begin,
    /// The client ran: its output, or the reason it could not run.
    Ran(Result<ProcessOutput, String>),
    /// The connection test ended: whether it connected, or why it broke off.
    Tested(Result<bool, String>),
}

/// The event answers the action that led to the stage.
pub open spec fn event_fits(stage: ChangeStage, event: ChangeEvent) -> bool {
    match stage {
        ChangeStage::Start => event is Begin,
        ChangeStage::VerifyingOld => event is Ran,
        ChangeStage::Altering => event is Ran,
        ChangeStage::FallingBack { .. } => event is Ran,
        ChangeStage::Testing { .. } => event is Tested,
        ChangeStage::Done => false,
    }
}

/// The order of the stages: every step moves strictly forward.
pub open spec fn stage_rank(stage: ChangeStage) -> nat {
    match stage {
        ChangeStage::Start => 0,
        ChangeStage::VerifyingOld => 1,
        ChangeStage::Altering => 2,
        ChangeStage::FallingBack { .. } => 3,
        ChangeStage::Testing { .. } => 4,
        ChangeStage::Done => 5,
    }
}

/// The client refused the old password.
pub open spec fn access_denied(o: ProcessOutput) -> bool {
    o.exit_code != 0 && (contains(o.stderr@, "Access denied"@) || contains(o.stderr@, "ERROR 1045"@))
}

/// A client run that exited with 0.
pub open spec fn ran_ok(event: ChangeEvent) -> bool {
    event matches ChangeEvent::Ran(Ok(o)) && o.exit_code == 0
}

/// The answer after a successful statement, from the connection test.
pub open spec fn change_answer(route: ChangeRoute, test: Result<bool, String>) -> Seq<char> {
    match route {
        ChangeRoute::Direct => match test {
            Ok(true) => "密码修改成功，连接测试通过！"@,
            Ok(false) => "密码可能已成功修改！虽然连接测试失败，但 SQL 命令执行成功。请尝试手动连接。"@,
            Err(_) => "密码可能已成功修改！虽然连接测试异常，但 SQL 命令执行成功。请尝试手动连接。"@,
        },
        ChangeRoute::Dynamic => if test == Ok::<bool, String>(true) {
            "密码修改成功（备用方案），连接测试通过！"@
        } else {
            "密码可能已成功修改！请尝试手动连接。"@
        },
        ChangeRoute::Legacy => if test == Ok::<bool, String>(true) {
            "密码修改成功，连接测试通过！"@
        } else {
            "密码可能已成功修改！请尝试手动连接。"@
        },
    }
}

/// One step of a password change made with the old password.  The old password
/// is checked with `SELECT 1;` (a refusal ends the change); the direct statement
/// on `'root'@'localhost'` runs; if it fails, the script over every root account
/// (8.0 and later) or the `UPDATE` (before 8.0) runs; after a statement that
/// succeeded the connection test runs and words the answer.
pub fn change_password_step(
    stage: &ChangeStage,
    version: &str,
    new_password: &str,
    event: &ChangeEvent,
) -> (r: (ChangeStage, ChangeAction))
    requires
        event_fits(*stage, *event),
    ensures
        stage_rank(r.0) > stage_rank(*stage),
        r.1 is Finish <==> r.0 is Done,
        r.0 is Testing ==> ran_ok(*event),
        (r.1 matches ChangeAction::Finish(Ok(_))) ==> stage is Testing,
        stage is Start ==> r.0 is VerifyingOld && (r.1 matches ChangeAction::RunSql(q) && q@
            == "SELECT 1;"@),
        stage is VerifyingOld ==> match *event {
            ChangeEvent::Ran(Ok(o)) if access_denied(o) => r.1 matches ChangeAction::Finish(Err(e))
                && e@ == "旧密码不正确！请确认你输入的旧密码是否正确，或者使用密码重置功能。"@,
            _ => r.0 is Altering && (r.1 matches ChangeAction::RunSql(q) && q@ == simple_alter_sql(
                version@,
                new_password@,
                "localhost"@,
            )),
        },
        stage is Altering ==> match *event {
            ChangeEvent::Ran(Ok(o)) => if o.exit_code == 0 {
                r.0 == (ChangeStage::Testing { route: ChangeRoute::Direct }) && r.1 is TestConnection
            } else if major_at_least(version@, 8) {
                (r.0 matches ChangeStage::FallingBack { route, first_error } && route
                    == ChangeRoute::Dynamic && first_error@ == o.stderr@) && (r.1 matches ChangeAction::RunSql(
                    q,
                ) && q@ == safe_change_password_sql(version@, new_password@))
            } else {
                (r.0 matches ChangeStage::FallingBack { route, first_error } && route
                    == ChangeRoute::Legacy && first_error@ == o.stderr@) && (r.1 matches ChangeAction::RunSql(
                    q,
                ) && q@ == legacy_update_sql(version@, new_password@))
            },
            ChangeEvent::Ran(Err(x)) => r.1 matches ChangeAction::Finish(Err(e)) && e@ == "执行异常: "@
                + x@,
            _ => true,
        },
        *stage matches ChangeStage::FallingBack { route, first_error } ==> if ran_ok(*event) {
            r.0 == (ChangeStage::Testing { route }) && r.1 is TestConnection
        } else if route == ChangeRoute::Legacy {
            r.1 matches ChangeAction::Finish(Err(e)) && e@ == "密码修改失败！错误信息: "@ + first_error@
        } else {
            r.1 matches ChangeAction::Finish(Err(e)) && e@
                == "密码修改失败！请确认旧密码是否正确，或者尝试使用密码重置功能。"@
        },
        *stage matches ChangeStage::Testing { route } ==> (*event matches ChangeEvent::Tested(t) && (
        r.1 matches ChangeAction::Finish(Ok(m)) && m@ == change_answer(route, t))),
{
    match stage {
        ChangeStage::Start => (ChangeStage::VerifyingOld, ChangeAction::RunSql(owned("SELECT 1;"))),
        ChangeStage::VerifyingOld => {
            let denied = match event {
                ChangeEvent::Ran(Ok(o)) => {
                    let err = to_chars(o.stderr.as_str());
                    o.exit_code != 0 && (contains_str(&err, "Access denied") || contains_str(
                        &err,
                        "ERROR 1045",
                    ))
                },
                _ => false,
            };
            if denied {
                (
                    ChangeStage::Done,
                    ChangeAction::Finish(
                        Err(owned("旧密码不正确！请确认你输入的旧密码是否正确，或者使用密码重置功能。")),
                    ),
                )
            } else {
                let sql = build_simple_alter_sql(version, new_password, "localhost");
                proof {
                    reveal_strlit("localhost");
                    crate::text::lemma_utf8_len_bound("localhost"@);
                    assert(forall|i: int| 0 <= i < "localhost"@.len() ==> is_host_char(#[trigger] "localhost"@[i]));
                    assert(host_problem("localhost"@) is None);
                }
                match sql {
                    Ok(q) => (ChangeStage::Altering, ChangeAction::RunSql(q)),
                    Err(e) => (ChangeStage::Done, ChangeAction::Finish(Err(e))),
                }
            }
        },
        ChangeStage::Altering => match event {
            ChangeEvent::Ran(Ok(o)) => {
                if o.exit_code == 0 {
                    (ChangeStage::Testing { route: ChangeRoute::Direct }, ChangeAction::TestConnection)
                } else if is_mysql_8_or_higher(version) {
                    let q = build_safe_change_password_sql(version, new_password);
                    (
                        ChangeStage::FallingBack {
                            route: ChangeRoute::Dynamic,
                            first_error: o.stderr.clone(),
                        },
                        ChangeAction::RunSql(q),
                    )
                } else {
                    let q = build_legacy_update_sql(version, new_password);
                    (
                        ChangeStage::FallingBack {
                            route: ChangeRoute::Legacy,
                            first_error: o.stderr.clone(),
                        },
                        ChangeAction::RunSql(q),
                    )
                }
            },
            ChangeEvent::Ran(Err(x)) => {
                let mut m: Vec<char> = Vec::new();
                push_str(&mut m, "执行异常: ");
                push_str(&mut m, x.as_str());
                (ChangeStage::Done, ChangeAction::Finish(Err(from_chars(&m))))
            },
            _ => (ChangeStage::Done, ChangeAction::Finish(Err(owned("执行异常")))),
        },
        ChangeStage::FallingBack { route, first_error } => {
            let ok = match event {
                ChangeEvent::Ran(Ok(o)) => o.exit_code == 0,
                _ => false,
            };
            if ok {
                (ChangeStage::Testing { route: *route }, ChangeAction::TestConnection)
            } else {
                match route {
                    ChangeRoute::Legacy => {
                        let mut m: Vec<char> = Vec::new();
                        push_str(&mut m, "密码修改失败！错误信息: ");
                        push_str(&mut m, first_error.as_str());
                        (ChangeStage::Done, ChangeAction::Finish(Err(from_chars(&m))))
                    },
                    _ => (
                        ChangeStage::Done,
                        ChangeAction::Finish(
                            Err(owned("密码修改失败！请确认旧密码是否正确，或者尝试使用密码重置功能。")),
                        ),
                    ),
                }
            }
        },
        ChangeStage::Testing { route } => {
            let passed = match event {
                ChangeEvent::Tested(Ok(true)) => true,
                _ => false,
            };
            let m = match route {
                ChangeRoute::Direct => match event {
                    ChangeEvent::Tested(Ok(true)) => owned("密码修改成功，连接测试通过！"),
                    ChangeEvent::Tested(Ok(false)) => owned(
                        "密码可能已成功修改！虽然连接测试失败，但 SQL 命令执行成功。请尝试手动连接。",
                    ),
                    _ => owned(
                        "密码可能已成功修改！虽然连接测试异常，但 SQL 命令执行成功。请尝试手动连接。",
                    ),
                },
                ChangeRoute::Dynamic => if passed {
                    owned("密码修改成功（备用方案），连接测试通过！")
                } else {
                    owned("密码可能已成功修改！请尝试手动连接。")
                },
                ChangeRoute::Legacy => if passed {
                    owned("密码修改成功，连接测试通过！")
                } else {
                    owned("密码可能已成功修改！请尝试手动连接。")
                },
            };
            (ChangeStage::Done, ChangeAction::Finish(Ok(m)))
        },
        ChangeStage::Done => (ChangeStage::Done, ChangeAction::Finish(Err(owned("执行异常")))),
    }
}

// ---------------------------------------------------------------------------
// Laws of the reset statements
// ---------------------------------------------------------------------------

/// A version text that starts with `5.7` has major version 5.
proof fn lemma_57_major(version: Seq<char>)
    requires
        starts_with(version, "5.7"@),
    ensures
        major_version(version) == Some(5nat),
{
    reveal_strlit("5.7");
    assert(version[0] == '5' && version[1] == '.') by {
        assert(version.take(3)[0] == version[0]);
        assert(version.take(3)[1] == version[1]);
    }
    lemma_find_char(version, '.');
    match find_char(version, '.') {
        Some(k) => {
            assert(k == 1);
        },
        None => {
            assert(version[1] != '.');
        },
    }
    let f = first_piece(version);
    assert(f =~= seq!['5']);
    assert(f.drop_last() =~= Seq::<char>::empty());
    assert(digits_value(Seq::<char>::empty()) == 0);
    assert(digits_value(f) == 5);
}

/// Which credential column a reset writes, by server generation: a 5.7 server
/// gets the new password, escaped, through `PASSWORD()` in
/// `authentication_string`; an older one through `PASSWORD()` in `Password`;
/// an 8.x server has it set by `ALTER USER ... IDENTIFIED WITH
/// mysql_native_password`, and a 9.x server by `ALTER USER ... IDENTIFIED BY`,
/// the last statement naming `root` at any host.
pub proof fn law_reset_sql_credential_column(version: Seq<char>, password: Seq<char>)
    ensures
        starts_with(version, "5.7"@) ==> starts_with(
            password_reset_sql(version, password),
            "UPDATE mysql.user SET authentication_string=PASSWORD('"@ + escaped(password) + "')"@,
        ),
        !starts_with(version, "5.7"@) && !major_at_least(version, 8) ==> starts_with(
            password_reset_sql(version, password),
            "UPDATE mysql.user SET Password=PASSWORD('"@ + escaped(password) + "')"@,
        ),
        major_at_least(version, 8) && !major_at_least(version, 9) ==> ends_with(
            password_reset_sql(version, password),
            "ALTER USER 'root'@'%' IDENTIFIED WITH mysql_native_password BY '"@ + escaped(password) + "';"@,
        ),
        major_at_least(version, 9) ==> ends_with(
            password_reset_sql(version, password),
            "ALTER USER 'root'@'%' IDENTIFIED BY '"@ + escaped(password) + "';"@,
        ),
{
    let e = escaped(password);
    let sql = password_reset_sql(version, password);
    let tail = "'), plugin='mysql_native_password', password_expired='N' WHERE User='root'; SELECT ROW_COUNT() AS affected_rows; FLUSH PRIVILEGES;"@;
    reveal_strlit("'), plugin='mysql_native_password', password_expired='N' WHERE User='root'; SELECT ROW_COUNT() AS affected_rows; FLUSH PRIVILEGES;");
    reveal_strlit("')");
    if starts_with(version, "5.7"@) {
        lemma_57_major(version);
        let head = "UPDATE mysql.user SET authentication_string=PASSWORD('"@;
        let p = head + e + "')"@;
        assert(sql == head + e + tail);
        assert(sql.take(p.len() as int) =~= p);
    } else if !major_at_least(version, 8) {
        let head = "UPDATE mysql.user SET Password=PASSWORD('"@;
        let p = head + e + "')"@;
        assert(sql == head + e + tail);
        assert(sql.take(p.len() as int) =~= p);
    } else if !major_at_least(version, 9) {
        let head = "UPDATE mysql.user SET authentication_string='', plugin='mysql_native_password' WHERE User='root'; SELECT ROW_COUNT() AS affected_rows; FLUSH PRIVILEGES; ALTER USER 'root'@'localhost' IDENTIFIED WITH mysql_native_password BY '"@;
        let mid = "'; ALTER USER 'root'@'127.0.0.1' IDENTIFIED WITH mysql_native_password BY '"@;
        let last = "'; ALTER USER 'root'@'%' IDENTIFIED WITH mysql_native_password BY '"@;
        let p = "ALTER USER 'root'@'%' IDENTIFIED WITH mysql_native_password BY '"@ + e + "';"@;
        reveal_strlit("'; ALTER USER 'root'@'%' IDENTIFIED WITH mysql_native_password BY '");
        reveal_strlit("ALTER USER 'root'@'%' IDENTIFIED WITH mysql_native_password BY '");
        reveal_strlit("';");
        assert(sql == head + e + mid + e + last + e + "';"@);
        assert(sql.skip(sql.len() - p.len()) =~= p);
    } else {
        let head = "UPDATE mysql.user SET authentication_string='', plugin='caching_sha2_password' WHERE User='root'; SELECT ROW_COUNT() AS affected_rows; FLUSH PRIVILEGES; ALTER USER 'root'@'localhost' IDENTIFIED BY '"@;
        let mid = "'; ALTER USER 'root'@'127.0.0.1' IDENTIFIED BY '"@;
        let last = "'; ALTER USER 'root'@'%' IDENTIFIED BY '"@;
        let p = "ALTER USER 'root'@'%' IDENTIFIED BY '"@ + e + "';"@;
        reveal_strlit("'; ALTER USER 'root'@'%' IDENTIFIED BY '");
        reveal_strlit("ALTER USER 'root'@'%' IDENTIFIED BY '");
        reveal_strlit("';");
        assert(sql == head + e + mid + e + last + e + "';"@);
        assert(sql.skip(sql.len() - p.len()) =~= p);
    }
}

} // verus!
