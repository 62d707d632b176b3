//! Checks of the sign-in forms: when a password or text-message sign-in may
//! go out, and what the user is told when it may not.
use vstd::prelude::*;
use crate::text::{decimal, is_digit, push_decimal, trim, trim_str};

verus! {

/// The two ways of signing in.
#[derive(Clone, Copy, Debug, PartialEq, Eq, Structural)]
pub enum LoginMode {
    Password,
    Sms,
}

pub const ACCOUNT_AND_PASSWORD_REQUIRED: &'static str = "请输入账号和密码";

pub const PHONE_NUMBER_REQUIRED: &'static str = "请输入 11 位手机号";

pub const SMS_CODE_REQUIRED: &'static str = "请输入 6 位短信验证码";

pub const STILL_CONNECTING: &'static str = "实时服务正在建立，请稍后发送验证码";

/// Only ASCII digits (possibly none).
pub open spec fn digits_only(s: Seq<char>) -> bool {
    forall|i: int| 0 <= i < s.len() ==> is_digit(#[trigger] s[i])
}

/// Eleven ASCII digits.
pub open spec fn is_phone_number(s: Seq<char>) -> bool {
    s.len() == 11 && digits_only(s)
}

/// Six ASCII digits.
pub open spec fn is_sms_code(s: Seq<char>) -> bool {
    s.len() == 6 && digits_only(s)
}

/// Whether `s` has exactly `n` characters, all of them ASCII digits.
pub(crate) fn is_digit_run(s: &str, n: usize) -> (r: bool)
    ensures
        r == (s@.len() == n && digits_only(s@)),
{
    let len = s.unicode_len();
    if len != n {
        return false;
    }
    let mut i: usize = 0;
    while i < len
        invariant
            len == s@.len(),
            0 <= i <= len,
            forall|k: int| 0 <= k < i ==> is_digit(#[trigger] s@[k]),
        decreases len - i,
    {
        let c = s.get_char(i);
        if !('0' <= c && c <= '9') {
            return false;
        }
        i = i + 1;
    }
    true
}

/// A password sign-in goes out with the trimmed account and the password as
/// typed; an empty account (after trimming) or an empty password stops it.
pub fn check_password_login(account: &str, password: &str) -> (r: Result<String, &'static str>)
    ensures
        match r {
            Ok(a) => trim(account@).len() > 0 && password@.len() > 0 && a@ == trim(account@),
            Err(e) => (trim(account@).len() == 0 || password@.len() == 0) && e
                == ACCOUNT_AND_PASSWORD_REQUIRED,
        },
{
    let trimmed = trim_str(account);
    if trimmed.unicode_len() == 0 || password.unicode_len() == 0 {
        return Err(ACCOUNT_AND_PASSWORD_REQUIRED);
    }
    Ok(trimmed.to_owned())
}

/// A code may be sent only over a live connection.
pub fn ensure_connected(connected: bool) -> (r: Result<(), &'static str>)
    ensures
        match r {
            Ok(()) => connected,
            Err(e) => !connected && e == STILL_CONNECTING,
        },
{
    if connected {
        Ok(())
    } else {
        Err(STILL_CONNECTING)
    }
}

/// Asking for a code: the trimmed number must be eleven digits, and the
/// connection must be up. On success the trimmed number is what is sent.
pub fn check_sms_request(phone_number: &str, connected: bool) -> (r: Result<String, &'static str>)
    ensures
        match r {
            Ok(p) => is_phone_number(trim(phone_number@)) && connected && p@ == trim(
                phone_number@,
            ),
            Err(e) => if !is_phone_number(trim(phone_number@)) {
                e == PHONE_NUMBER_REQUIRED
            } else {
                !connected && e == STILL_CONNECTING
            },
        },
{
    let phone = trim_str(phone_number);
    if !is_digit_run(phone, 11) {
        return Err(PHONE_NUMBER_REQUIRED);
    }
    match ensure_connected(connected) {
        Ok(()) => Ok(phone.to_owned()),
        Err(e) => Err(e),
    }
}

/// Signing in with a code: the number is checked first, then the code, then
/// the connection. On success the trimmed number and code are what is sent.
pub fn check_sms_login(phone_number: &str, code: &str, connected: bool) -> (r: Result<
    (String, String),
    &'static str,
>)
    ensures
        match r {
            Ok((p, c)) => is_phone_number(trim(phone_number@)) && is_sms_code(trim(code@))
                && connected && p@ == trim(phone_number@) && c@ == trim(code@),
            Err(e) => if !is_phone_number(trim(phone_number@)) {
                e == PHONE_NUMBER_REQUIRED
            } else if !is_sms_code(trim(code@)) {
                e == SMS_CODE_REQUIRED
            } else {
                !connected && e == STILL_CONNECTING
            },
        },
{
    let phone = trim_str(phone_number);
    let trimmed_code = trim_str(code);
    if !is_digit_run(phone, 11) {
        return Err(PHONE_NUMBER_REQUIRED);
    }
    if !is_digit_run(trimmed_code, 6) {
        return Err(SMS_CODE_REQUIRED);
    }
    match ensure_connected(connected) {
        Ok(()) => Ok((phone.to_owned(), trimmed_code.to_owned())),
        Err(e) => Err(e),
    }
}

/// The notice shown once a code is on its way.
pub open spec fn sms_sent_text(expires_in: nat) -> Seq<char> {
    "验证码已发送，"@ + decimal(expires_in) + " 秒内有效"@
}

/// `验证码已发送，{expires_in} 秒内有效`.
pub fn sms_sent_hint(expires_in: u64) -> (r: String)
    ensures
        r@ == sms_sent_text(expires_in as nat),
{
    let mut out = String::new();
    out.append("验证码已发送，");
    push_decimal(&mut out, expires_in);
    out.append(" 秒内有效");
    proof {
        assert(Seq::<char>::empty() + "验证码已发送，"@ + decimal(expires_in as nat) + " 秒内有效"@
            =~= sms_sent_text(expires_in as nat));
    }
    out
}

} // verus!
