use dev_tools::error::{owned, AppError};

#[test]
fn test_error_conversion() {
    let err = AppError::InvalidServiceName("test| malicious".to_string());
    let msg = err.to_user_message();
    assert!(msg.contains("服务名无效"));
}

#[test]
fn test_io_error_conversion() {
    let io_err = std::io::Error::new(std::io::ErrorKind::NotFound, "file not found");
    let app_err: AppError = io_err.into();
    assert!(app_err.to_user_message().contains("文件操作失败"));
}

#[test]
fn user_message_is_prefix_then_text() {
    assert_eq!(AppError::Validation("x".to_string()).to_user_message(), "验证失败: x");
    assert_eq!(AppError::CommandExecution("y".to_string()).to_user_message(), "命令执行失败: y");
    assert_eq!(AppError::Network("z".to_string()).to_user_message(), "网络请求失败: z");
    assert_eq!(AppError::InvalidServiceName("w".to_string()).to_user_message(), "服务名无效: w");
}

#[test]
fn io_message_carries_system_text() {
    let io_err = std::io::Error::new(std::io::ErrorKind::NotFound, "file not found");
    let app_err = AppError::from(io_err);
    assert_eq!(app_err.to_user_message(), "文件操作失败: file not found");
}

#[test]
fn owned_copies_text() {
    assert_eq!(owned("abc"), "abc");
    assert_eq!(owned(""), "");
}
