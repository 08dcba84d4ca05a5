//! Input validation applied before a name, password or URL reaches a system command.
use vstd::prelude::*;
use crate::error::{AppError, AppResult, carried_text, is_invalid_service_name, is_validation, owned};
use crate::text::{
    contains, contains_str, from_chars, has_ch, has_char, is_ascii_alnum, is_whitespace, is_ws,
    lines, lines_of, parse_unsigned, parse_unsigned_chars, push_all, push_str, starts_with,
    starts_with_str, to_chars, trim, trim_chars, utf8_len, utf8_len_lt, vviews,
};

verus! {

/// Characters a service name may hold: ASCII letters and digits, `-`, `_` and `.`.
pub open spec fn is_service_name_char(c: char) -> bool {
    is_ascii_alnum(c) || c == '-' || c == '_' || c == '.'
}

/// Why a service name is refused, or `None` when it is accepted.  Lengths are in bytes.
pub open spec fn service_name_problem(name: Seq<char>) -> Option<Seq<char>> {
    if name.len() == 0 {
        Some("服务名不能为空"@)
    } else if utf8_len(name) > 256 {
        Some("服务名长度不能超过256"@)
    } else if exists|i: int| 0 <= i < name.len() && is_ws(#[trigger] name[i]) {
        Some("服务名不能包含空格"@)
    } else if exists|i: int| 0 <= i < name.len() && !is_service_name_char(#[trigger] name[i]) {
        Some("服务名只能包含字母、数字、连字符、下划线、点号: "@ + name)
    } else {
        None
    }
}

/// Checks that a service name is safe to hand to the service manager.
pub fn validate_service_name(name: &str) -> (r: AppResult<()>)
    ensures
        match service_name_problem(name@) {
            None => r is Ok,
            Some(msg) => r matches Err(e) && is_invalid_service_name(e, msg),
        },
{
    let v = to_chars(name);
    if v.len() == 0 {
        return Err(AppError::InvalidServiceName(owned("服务名不能为空")));
    }
    if !utf8_len_lt(&v, 257) {
        return Err(AppError::InvalidServiceName(owned("服务名长度不能超过256")));
    }
    let mut i: usize = 0;
    while i < v.len()
        invariant
            i <= v.len(),
            v@ == name@,
            v@.len() > 0,
            utf8_len(v@) <= 256,
            forall|j: int| 0 <= j < i ==> !is_ws(#[trigger] v@[j]),
        decreases v.len() - i,
    {
        if is_whitespace(v[i]) {
            return Err(AppError::InvalidServiceName(owned("服务名不能包含空格")));
        }
        i += 1;
    }
    let mut i: usize = 0;
    while i < v.len()
        invariant
            i <= v.len(),
            v@ == name@,
            v@.len() > 0,
            utf8_len(v@) <= 256,
            forall|j: int| 0 <= j < v.len() ==> !is_ws(#[trigger] v@[j]),
            forall|j: int| 0 <= j < i ==> is_service_name_char(#[trigger] v@[j]),
        decreases v.len() - i,
    {
        let c = v[i];
        let ok = ('0' <= c && c <= '9') || ('a' <= c && c <= 'z') || ('A' <= c && c <= 'Z')
            || c == '-' || c == '_' || c == '.';
        if !ok {
            let mut m: Vec<char> = Vec::new();
            push_str(&mut m, "服务名只能包含字母、数字、连字符、下划线、点号: ");
            push_all(&mut m, &v);
            return Err(AppError::InvalidServiceName(from_chars(&m)));
        }
        i += 1;
    }
    Ok(())
}

/// Why a password is refused, or `None`.  Lengths are in bytes.
pub open spec fn password_problem(password: Seq<char>) -> Option<Seq<char>> {
    let n = utf8_len(password);
    if n < 6 {
        Some("密码长度至少需要6个字符"@)
    } else if n > 128 {
        Some("密码长度不能超过128个字符"@)
    } else {
        None
    }
}

/// Checks a new password's length: at least 6 and at most 128 bytes.
pub fn validate_password_strength(password: &str) -> (r: AppResult<()>)
    ensures
        match password_problem(password@) {
            None => r is Ok,
            Some(msg) => r matches Err(e) && is_validation(e, msg),
        },
{
    let v = to_chars(password);
    if utf8_len_lt(&v, 6) {
        return Err(AppError::Validation(owned("密码长度至少需要6个字符")));
    }
    if !utf8_len_lt(&v, 129) {
        return Err(AppError::Validation(owned("密码长度不能超过128个字符")));
    }
    Ok(())
}

/// Why a mirror URL is refused, or `None`.
pub open spec fn mirror_url_problem(url: Seq<char>) -> Option<Seq<char>> {
    if url.len() == 0 {
        Some("镜像源URL不能为空"@)
    } else if !starts_with(url, "http://"@) && !starts_with(url, "https://"@) {
        Some("镜像源URL必须以http://或https://开头"@)
    } else if has_char(url, ';') || has_char(url, '|') || has_char(url, '&') || has_char(url, '`')
        || has_char(url, '$') {
        Some("URL包含非法字符"@)
    } else if has_char(url, '\n') || has_char(url, '\r') || has_char(url, '\0') {
        Some("URL包含非法控制字符"@)
    } else if contains(url, "$("@) || contains(url, "${"@) {
        Some("URL包含命令替换语法"@)
    } else if contains(url, ".."@) {
        Some("URL包含路径穿越"@)
    } else {
        None
    }
}

/// Checks a package-mirror URL: http(s) only, no shell metacharacters, control
/// characters, command substitution or `..`.
pub fn validate_mirror_url(url: &str) -> (r: AppResult<()>)
    ensures
        match mirror_url_problem(url@) {
            None => r is Ok,
            Some(msg) => r matches Err(e) && is_validation(e, msg),
        },
{
    let v = to_chars(url);
    if v.len() == 0 {
        return Err(AppError::Validation(owned("镜像源URL不能为空")));
    }
    if !starts_with_str(&v, "http://") && !starts_with_str(&v, "https://") {
        return Err(AppError::Validation(owned("镜像源URL必须以http://或https://开头")));
    }
    if has_ch(&v, ';') || has_ch(&v, '|') || has_ch(&v, '&') || has_ch(&v, '`') || has_ch(&v, '$') {
        return Err(AppError::Validation(owned("URL包含非法字符")));
    }
    if has_ch(&v, '\n') || has_ch(&v, '\r') || has_ch(&v, '\0') {
        return Err(AppError::Validation(owned("URL包含非法控制字符")));
    }
    if contains_str(&v, "$(") || contains_str(&v, "${") {
        return Err(AppError::Validation(owned("URL包含命令替换语法")));
    }
    if contains_str(&v, "..") {
        return Err(AppError::Validation(owned("URL包含路径穿越")));
    }
    Ok(())
}

/// The last line of a command's output after trimming, as `count` parsers read it:
/// the trimmed last line of the trimmed output, or the empty text.
pub open spec fn last_trimmed_line(out: Seq<char>) -> Seq<char> {
    let ls = lines(trim(out));
    if ls.len() == 0 {
        Seq::empty()
    } else {
        trim(ls.last())
    }
}

/// Reads the process count printed last by the PowerShell counting scripts.
/// An unreadable line is an error carrying that line.
pub fn parse_process_count(stdout: &str) -> (r: AppResult<usize>)
    ensures
        match parse_unsigned(last_trimmed_line(stdout@), usize::MAX as nat) {
            Some(n) => r == Ok::<usize, AppError>(n as usize),
            None => r matches Err(e) && e is CommandExecution
                && carried_text(e) == "无法解析进程数输出: "@ + last_trimmed_line(stdout@),
        },
{
    let all = to_chars(stdout);
    let t = trim_chars(&all);
    let ls = lines_of(&t);
    let last: Vec<char> = if ls.len() == 0 {
        Vec::new()
    } else {
        trim_chars(&ls[ls.len() - 1])
    };
    assert(last@ == last_trimmed_line(stdout@)) by {
        if ls.len() == 0 {
            assert(last@ =~= Seq::<char>::empty());
        } else {
            assert(vviews(ls@).last() == ls@[ls.len() - 1]@);
        }
    }
    match parse_unsigned_chars(&last, usize::MAX as u64) {
        Some(n) => Ok(n as usize),
        None => {
            let mut m: Vec<char> = Vec::new();
            push_str(&mut m, "无法解析进程数输出: ");
            push_all(&mut m, &last);
            Err(AppError::CommandExecution(from_chars(&m)))
        },
    }
}

/// The user-facing message for a refused mirror URL.
pub open spec fn mirror_url_refusal(url: Seq<char>) -> Option<Seq<char>> {
    match mirror_url_problem(url) {
        Some(m) => Some("验证失败: "@ + m),
        None => None,
    }
}

/// [`validate_mirror_url`] with the refusal worded for the user.
pub fn check_mirror_url(url: &str) -> (r: Result<(), String>)
    ensures
        match mirror_url_refusal(url@) {
            None => r is Ok,
            Some(m) => r matches Err(e) && e@ == m,
        },
{
    match validate_mirror_url(url) {
        Ok(()) => Ok(()),
        Err(e) => Err(e.to_user_message()),
    }
}

/// A service name that is accepted is safe to hand to the service manager:
/// non-empty, at most 256 bytes, and made only of ASCII letters, digits, `-`,
/// `_` and `.` (so no white space, quote or shell metacharacter); and every such
/// name is accepted.
pub proof fn law_accepted_service_names(name: Seq<char>)
    ensures
        service_name_problem(name) is None <==> (name.len() > 0 && utf8_len(name) <= 256 && forall|i: int|
            0 <= i < name.len() ==> is_ascii_alnum(#[trigger] name[i]) || name[i] == '-' || name[i] == '_'
                || name[i] == '.'),
{
    if name.len() > 0 && utf8_len(name) <= 256 && forall|i: int|
        0 <= i < name.len() ==> is_ascii_alnum(#[trigger] name[i]) || name[i] == '-' || name[i] == '_' || name[i] == '.' {
        assert forall|i: int| 0 <= i < name.len() implies !is_ws(#[trigger] name[i]) by {
            assert(is_ascii_alnum(name[i]) || name[i] == '-' || name[i] == '_' || name[i] == '.');
        }
        assert(!(exists|i: int| 0 <= i < name.len() && is_ws(#[trigger] name[i])));
        assert(!(exists|i: int| 0 <= i < name.len() && !is_service_name_char(#[trigger] name[i])));
    }
    if service_name_problem(name) is None {
        assert forall|i: int| 0 <= i < name.len() implies is_ascii_alnum(#[trigger] name[i]) || name[i] == '-'
            || name[i] == '_' || name[i] == '.' by {
            assert(is_service_name_char(name[i]));
        }
    }
}

/// A password is accepted exactly when it is 6 to 128 bytes long.
pub proof fn law_accepted_passwords(password: Seq<char>)
    ensures
        password_problem(password) is None <==> 6 <= utf8_len(password) <= 128,
{
}

/// A mirror URL that is accepted is an http or https URL without shell
/// metacharacters (`;`, `|`, `&`, backquote, `$`), without line breaks or NUL,
/// and without `..`.
pub proof fn law_accepted_mirror_urls(url: Seq<char>)
    ensures
        mirror_url_problem(url) is None ==> {
            &&& starts_with(url, "http://"@) || starts_with(url, "https://"@)
            &&& forall|i: int|
                0 <= i < url.len() ==> #[trigger] url[i] != ';' && url[i] != '|' && url[i] != '&' && url[i] != '`'
                    && url[i] != '$' && url[i] != '\n' && url[i] != '\r' && url[i] != '\0'
            &&& !contains(url, ".."@)
        },
{
    if mirror_url_problem(url) is None {
        assert forall|i: int| 0 <= i < url.len() implies #[trigger] url[i] != ';' && url[i] != '|' && url[i]
            != '&' && url[i] != '`' && url[i] != '$' && url[i] != '\n' && url[i] != '\r' && url[i] != '\0' by {
            if url[i] == ';' { assert(has_char(url, ';')); }
            if url[i] == '|' { assert(has_char(url, '|')); }
            if url[i] == '&' { assert(has_char(url, '&')); }
            if url[i] == '`' { assert(has_char(url, '`')); }
            if url[i] == '$' { assert(has_char(url, '$')); }
            if url[i] == '\n' { assert(has_char(url, '\n')); }
            if url[i] == '\r' { assert(has_char(url, '\r')); }
            if url[i] == '\0' { assert(has_char(url, '\0')); }
        }
    }
}

} // verus!
