use rust_learn::model::user::{new_user_id, user_id_for};
use rust_learn::service::user::user_info::user_info;
use rust_learn::text::{parse_i32, parse_i64, parse_u128, parse_u64, parse_u8, trim, i128_text, u128_text};
use rust_learn::utils::error::app::AppError;
use rust_learn::utils::error::base::GlobalAppError;
use rust_learn::utils::error::user::UserError;
use rust_learn::utils::response::Response;

#[test]
fn decimal_texts() {
    assert_eq!(u128_text(0), "0");
    assert_eq!(u128_text(1234567890), "1234567890");
    assert_eq!(i128_text(-905), "-905");
    assert_eq!(i128_text(i128::MIN), "-170141183460469231731687303715884105728");
}

#[test]
fn parsing_like_std() {
    for s in ["0", "+12", "-12", "007", "-", "+", "", " 1", "1 ", "2147483647", "2147483648", "-2147483648", "-2147483649", "1_0"] {
        assert_eq!(parse_i32(s), s.parse::<i32>().ok(), "{:?}", s);
        assert_eq!(parse_i64(s), s.parse::<i64>().ok(), "{:?}", s);
        assert_eq!(parse_u64(s), s.parse::<u64>().ok(), "{:?}", s);
        assert_eq!(parse_u8(s), s.parse::<u8>().ok(), "{:?}", s);
        assert_eq!(parse_u128(s), s.parse::<u128>().ok(), "{:?}", s);
    }
    assert_eq!(parse_u8("255"), Some(255));
    assert_eq!(parse_u8("256"), None);
    assert_eq!(parse_u128("99999999999999999999999999999999999999999"), None);
}

#[test]
fn trimming_like_std() {
    for s in ["", "  ", " a b ", "\t\n x\r\n", "\u{3000}全角\u{3000}", "\u{a0}y", "z\u{85}"] {
        assert_eq!(trim(s), s.trim(), "{:?}", s);
    }
}

#[test]
fn user_ids() {
    assert_eq!(user_id_for("abc"), "u_abc");
    let id = new_user_id();
    assert_eq!(id.len(), 38);
    assert!(id.starts_with("u_"));
    assert_eq!(&id[16..17], "4");
    assert_eq!(id.matches('-').count(), 4);
}

#[test]
fn user_lookup_answers() {
    assert_eq!(user_info(Some(5), "u_1").unwrap(), 5);
    match user_info::<i32>(None, "u_9") {
        Err(UserError::UserNotExist { id }) => assert_eq!(id, "u_9"),
        other => panic!("{:?}", other),
    }
}

#[test]
fn error_messages() {
    assert_eq!(AppError::TokioRuntimeError.message(), "Tokio Runtime Error");
    assert_eq!(AppError::AppStartError("端口占用".to_string()).message(), "服务启动错误端口占用");
    assert_eq!(UserError::UserNotExist { id: "u_1".to_string() }.message(), "用户ID u_1 不存在");
    assert_eq!(UserError::PasswordMismatch.message(), "密码校验不匹配");
    assert_eq!(GlobalAppError::from(UserError::PasswordMismatch).message(), "用户业务异常：密码校验不匹配");
    assert_eq!(GlobalAppError::from(AppError::TokioRuntimeError).message(), "服务基础组件错误：Tokio Runtime Error");
}

#[test]
fn responses() {
    let ok: Response<u32> = Response::success(0, None);
    assert_eq!((ok.code(), ok.msg(), ok.data()), (0, "success", None));
    let ok2 = Response::success(0, Some(3u8));
    assert_eq!(ok2.data(), Some(&3));
    let bad: Response<u32> = Response::fail(1, "demo error".to_string());
    assert_eq!((bad.code(), bad.msg(), bad.data()), (1, "demo error", None));
    assert_eq!(bad.into_parts(), (1, "demo error".to_string(), None));
}
