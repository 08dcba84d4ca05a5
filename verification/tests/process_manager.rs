use dev_tools::error::AppError;
use dev_tools::process_manager::{
    check_mirror_url, parse_process_count, validate_mirror_url, validate_password_strength,
    validate_service_name,
};

#[test]
fn test_validate_service_name_valid() {
    assert!(validate_service_name("MySQL80").is_ok());
    assert!(validate_service_name("my-service_v1.0").is_ok());
}

#[test]
fn test_validate_service_name_invalid() {
    assert!(validate_service_name("").is_err());
    assert!(validate_service_name("service name").is_err());
    assert!(validate_service_name("service;rm -rf").is_err());
    assert!(validate_service_name("a".repeat(257).as_str()).is_err());
}

#[test]
fn test_validate_password_strength() {
    assert!(validate_password_strength("abc12").is_err());
    assert!(validate_password_strength("abc123").is_ok());
    assert!(validate_password_strength("abcdefgh").is_ok());
    assert!(validate_password_strength("Abcdefg1").is_ok());
    assert!(validate_password_strength("Abc@1234").is_ok());
}

fn service_message(r: Result<(), AppError>) -> String {
    match r {
        Err(AppError::InvalidServiceName(m)) => m,
        _ => panic!("expected an invalid service name"),
    }
}

fn validation_message(r: Result<(), AppError>) -> String {
    match r {
        Err(AppError::Validation(m)) => m,
        _ => panic!("expected a validation error"),
    }
}

#[test]
fn service_name_errors_name_each_rule() {
    assert_eq!(service_message(validate_service_name("")), "服务名不能为空");
    assert_eq!(service_message(validate_service_name(&"a".repeat(257))), "服务名长度不能超过256");
    assert!(validate_service_name(&"a".repeat(256)).is_ok());
    assert_eq!(service_message(validate_service_name("a b")), "服务名不能包含空格");
    assert_eq!(
        service_message(validate_service_name("a;b")),
        "服务名只能包含字母、数字、连字符、下划线、点号: a;b"
    );
}

#[test]
fn password_length_bounds() {
    assert_eq!(validation_message(validate_password_strength("12345")), "密码长度至少需要6个字符");
    assert!(validate_password_strength(&"x".repeat(128)).is_ok());
    assert_eq!(
        validation_message(validate_password_strength(&"x".repeat(129))),
        "密码长度不能超过128个字符"
    );
}

#[test]
fn mirror_url_rules() {
    assert!(validate_mirror_url("https://mirrors.example.com/x/").is_ok());
    assert_eq!(validation_message(validate_mirror_url("")), "镜像源URL不能为空");
    assert_eq!(
        validation_message(validate_mirror_url("ftp://x")),
        "镜像源URL必须以http://或https://开头"
    );
    assert_eq!(validation_message(validate_mirror_url("https://a;b")), "URL包含非法字符");
    assert_eq!(validation_message(validate_mirror_url("https://a\nb")), "URL包含非法控制字符");
    assert_eq!(validation_message(validate_mirror_url("https://a/../b")), "URL包含路径穿越");
}

#[test]
fn check_mirror_url_gives_user_message() {
    assert_eq!(check_mirror_url("https://ok.example.com"), Ok(()));
    assert_eq!(check_mirror_url(""), Err("验证失败: 镜像源URL不能为空".to_string()));
}

#[test]
fn process_count_reads_last_line() {
    assert_eq!(parse_process_count("warning\n  3  \n").unwrap(), 3);
    assert_eq!(parse_process_count("0").unwrap(), 0);
    match parse_process_count("abc") {
        Err(AppError::CommandExecution(m)) => assert_eq!(m, "无法解析进程数输出: abc"),
        _ => panic!("expected a command error"),
    }
}
