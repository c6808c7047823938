use rust_learn::practice::pass::{change_password, evaluate_password_strength, validate_password};

#[test]
fn test_validate_password_valid() {
    let valid_passwords = [
        "Abc123@",      // 最小长度
        "Abc123$test",  // 中等长度
        "Abc123#Test1", // 最大长度以内
    ];
    for pass in valid_passwords {
        assert!(validate_password(pass).is_ok(), "密码 '{}' 应该有效", pass);
    }
}

#[test]
fn test_validate_password_invalid() {
    let invalid_passwords = [
        ("Abc1@", "太短"),
        ("Abc1234567890@", "太长"),
        ("ABC123@", "缺少小写"),
        ("abc123@", "缺少大写"),
        ("Abcdef@", "缺少数字"),
        ("Abc1234", "缺少特殊字符"),
    ];
    for (pass, reason) in invalid_passwords.iter() {
        assert!(
            validate_password(pass).is_err(),
            "密码 '{}' 无效， 原因 '{}'",
            pass,
            reason
        );
    }
}

#[test]
fn test_evaluate_password_strength() {
    assert_eq!(evaluate_password_strength("Abc123@"), "弱");
    assert_eq!(evaluate_password_strength("Abc123$de"), "中");
    assert_eq!(evaluate_password_strength("Abc123#Test"), "强");
}

#[test]
fn validate_password_messages() {
    assert_eq!(
        validate_password("Abc1@").unwrap_err(),
        "密码长度不足：需要至少6个字符，实际为5个字符"
    );
    assert_eq!(
        validate_password("Abc1234567890@").unwrap_err(),
        "密码太长：需要至多12个字符，实际为14个字符"
    );
    assert_eq!(
        validate_password("abcdefg").unwrap_err(),
        "密码不符合要求至少包含一个大写字母[A-Z]\n至少包含一个数字[0-9]\n至少包含一个特殊字符[$, @, #]"
    );
    assert_eq!(validate_password("ABC123@").unwrap_err(), "密码不符合要求至少包含一个小写字母[a-z]");
}

#[test]
fn password_length_counts_bytes() {
    // two Chinese characters are six bytes long
    assert_eq!(
        validate_password("密码").unwrap_err(),
        "密码不符合要求至少包含一个小写字母[a-z]\n至少包含一个大写字母[A-Z]\n至少包含一个数字[0-9]\n至少包含一个特殊字符[$, @, #]"
    );
}

#[test]
fn strength_with_three_classes() {
    assert_eq!(evaluate_password_strength("abcdef123$"), "中");
    assert_eq!(evaluate_password_strength("abcdefgh"), "弱");
}

#[test]
fn change_password_outcomes() {
    assert_eq!(change_password(" Abc123#Test\n", "Abc123#Test"), Ok("强"));
    assert_eq!(change_password("Abc123@", "Abc123#").unwrap_err(), "两次输入密码不一致");
    assert!(change_password("abc", " abc ").is_err());
}
