use yizu_pages::clock::micros_from_reading;
use yizu_pages::images::{image_changes, BusinessImage};
use yizu_pages::login::{
    check_password_login, check_sms_login, check_sms_request, ensure_connected, sms_sent_hint,
};
use yizu_pages::pager::page_window;
use yizu_pages::text::{
    contains_str, decimal_string, is_blank_str, parse_i32, parse_i64, parse_u32, parse_u64,
    split_char, split_once_char, starts_with_str, trim_str,
};

#[test]
fn password_login_needs_account_and_password() {
    assert_eq!(check_password_login("  admin ", "secret"), Ok("admin".to_string()));
    assert_eq!(check_password_login("   ", "secret"), Err("请输入账号和密码"));
    assert_eq!(check_password_login("admin", ""), Err("请输入账号和密码"));
    // The password is sent as typed, spaces included.
    assert_eq!(check_password_login("admin", " "), Ok("admin".to_string()));
}

#[test]
fn sms_request_needs_eleven_digits_and_a_connection() {
    assert_eq!(check_sms_request(" 13800138000 ", true), Ok("13800138000".to_string()));
    assert_eq!(check_sms_request("1380013800", true), Err("请输入 11 位手机号"));
    assert_eq!(check_sms_request("1380013800x", true), Err("请输入 11 位手机号"));
    assert_eq!(check_sms_request("13800138000", false), Err("实时服务正在建立，请稍后发送验证码"));
    assert_eq!(ensure_connected(true), Ok(()));
}

#[test]
fn sms_login_checks_number_then_code_then_connection() {
    assert_eq!(check_sms_login("123", "123456", false), Err("请输入 11 位手机号"));
    assert_eq!(check_sms_login("13800138000", "12345", false), Err("请输入 6 位短信验证码"));
    assert_eq!(
        check_sms_login("13800138000", "123456", false),
        Err("实时服务正在建立，请稍后发送验证码")
    );
    assert_eq!(
        check_sms_login(" 13800138000", "123456 ", true),
        Ok(("13800138000".to_string(), "123456".to_string()))
    );
    assert_eq!(sms_sent_hint(300), "验证码已发送，300 秒内有效");
}

#[test]
fn image_changes_split_kept_removed_and_pending() {
    let images = vec![
        BusinessImage::Existing { img_id: 1, url: "u1".to_string(), removed: false },
        BusinessImage::Pending { name: "new.jpg".to_string() },
        BusinessImage::Existing { img_id: 2, url: "u2".to_string(), removed: true },
        BusinessImage::Existing { img_id: 3, url: "u3".to_string(), removed: false },
    ];
    let changes = image_changes(&images);
    assert_eq!(changes.kept_ids, vec![1, 3]);
    assert_eq!(changes.removed.len(), 1);
    assert_eq!((changes.removed[0].img_id, changes.removed[0].public_url.as_str()), (2, "u2"));
    assert_eq!(changes.pending, vec![1]);
}

#[test]
fn page_window_clamps_the_page() {
    assert_eq!(page_window(45, 1, 3, 20), (0, 20));
    assert_eq!(page_window(45, 3, 3, 20), (40, 45));
    assert_eq!(page_window(45, 9, 3, 20), (40, 45));
    assert_eq!(page_window(45, 0, 3, 20), (0, 20));
    assert_eq!(page_window(0, 1, 1, 20), (0, 0));
}

#[test]
fn text_helpers_match_std() {
    assert_eq!(trim_str("\u{3000} a b \n"), "a b");
    assert!(is_blank_str(" \t"));
    assert_eq!(split_char("a--b", '-'), vec!["a", "", "b"]);
    assert_eq!(split_once_char("x=y=z", '='), Some(("x", "y=z")));
    assert_eq!(split_once_char("xyz", '='), None);
    assert_eq!(parse_u32("+42"), Some(42));
    assert_eq!(parse_u32("-1"), None);
    assert_eq!(parse_i32("-2147483648"), Some(i32::MIN));
    assert_eq!(parse_i32("2147483648"), None);
    assert_eq!(parse_i64(""), None);
    assert_eq!(parse_u64("18446744073709551615"), Some(u64::MAX));
    assert_eq!(decimal_string(1234), "1234");
    assert!(starts_with_str("maintenance:inspect", "maint"));
    assert!(contains_str("abcabd", "abd"));
    assert!(!contains_str("ab", "abc"));
}

#[test]
fn clock_readings_become_microseconds() {
    assert_eq!(micros_from_reading(None), 0);
    assert_eq!(micros_from_reading(Some(1_234)), 1_234);
    assert_eq!(micros_from_reading(Some(u128::MAX)), i64::MAX);
}
