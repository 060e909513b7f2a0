//! Administrator rights: what to tell the user at start, and when to ask for them.
//!
//! Querying the rights and restarting with them is the platform's business; the
//! functions here decide on the answers.

use vstd::prelude::*;
use crate::text::{append, chars_of, nat_decimal, string_of, u64_decimal};

verus! {

/// The notice for a failed attempt to restart with administrator rights, around
/// the reason of the failure.
pub open spec fn failed_notice(err: Seq<char>) -> Seq<char> {
    "已开启「以管理员启动」，但提升失败："@ + err + "。请在设置中点击「立即以管理员重启」。"@
}

/// The notice for running without administrator rights although they were asked for.
pub open spec fn not_elevated_notice() -> Seq<char> {
    "已开启「以管理员启动」，但当前未获得管理员权限，自动演奏可能无效。请在设置中点击「立即以管理员重启」或在 UAC 中允许提升。"@
}

/// The notice shown after start: the reason when an attempt to gain administrator
/// rights failed; otherwise a warning when the settings ask for the rights and the
/// process does not have them; otherwise none.
pub fn startup_elevation_toast(
    launch_as_administrator: bool,
    is_elevated: bool,
    startup_error: Option<&str>,
) -> (r: Option<String>)
    ensures
        startup_error matches Some(e) ==> (r matches Some(m) && m@ == failed_notice(e@)),
        startup_error is None && launch_as_administrator && !is_elevated ==> (r matches Some(m)
            && m@ == not_elevated_notice()),
        startup_error is None && !(launch_as_administrator && !is_elevated) ==> r is None,
{
    match startup_error {
        Some(err) => {
            let mut v = chars_of("已开启「以管理员启动」，但提升失败：");
            let e = chars_of(err);
            append(&mut v, &e);
            let tail = chars_of("。请在设置中点击「立即以管理员重启」。");
            append(&mut v, &tail);
            Some(string_of(&v))
        },
        None => {
            if launch_as_administrator && !is_elevated {
                let v = chars_of(
                    "已开启「以管理员启动」，但当前未获得管理员权限，自动演奏可能无效。请在设置中点击「立即以管理员重启」或在 UAC 中允许提升。",
                );
                Some(string_of(&v))
            } else {
                None
            }
        },
    }
}

/// Whether the process should restart itself with administrator rights at start:
/// the settings ask for them and the process does not have them.
pub fn elevation_needed(launch_as_administrator: bool, is_elevated: bool) -> (r: bool)
    ensures
        r == (launch_as_administrator && !is_elevated),
{
    launch_as_administrator && !is_elevated
}

/// Whether the process has administrator rights, where the platform has no such
/// notion: never.
pub fn is_elevated() -> (r: bool)
    ensures
        !r,
{
    false
}

/// The message for the restart with administrator rights.
pub open spec fn restart_unsupported_message() -> Seq<char> {
    "仅 Windows 支持以管理员身份重启"@
}

/// Restarting with administrator rights where the platform does not support it:
/// always the error that says so.
pub fn restart_as_admin() -> (r: Result<(), String>)
    ensures
        r matches Err(m) && m@ == restart_unsupported_message(),
{
    let v = chars_of("仅 Windows 支持以管理员身份重启");
    Err(string_of(&v))
}

/// The `hInstApp` value with which the shell reports that the user declined the
/// request for administrator rights.
pub const SE_ERR_CANCELLED: usize = 1223;

/// The generic failure message around a Windows error code `code`.
pub open spec fn runas_code_message(code: nat) -> Seq<char> {
    "请求管理员权限失败 (错误码 "@ + nat_decimal(code) + ")"@
}

/// The message for a failed request whose `hInstApp` is `instance`.
pub open spec fn runas_message(instance: nat) -> Seq<char> {
    if instance == 0 {
        "系统资源不足，无法请求管理员权限"@
    } else if instance == 2 {
        "未找到程序文件"@
    } else if instance == 3 {
        "路径无效"@
    } else if instance == 5 {
        "拒绝访问，无法以管理员启动"@
    } else if instance == SE_ERR_CANCELLED {
        "已取消管理员权限请求（UAC）"@
    } else {
        runas_code_message(instance)
    }
}

/// The outcome of asking the shell to start the program again with
/// administrator rights (`ShellExecuteExW` with the verb `runas`): `shell_ok` is
/// whether the call succeeded, `last_error` the thread's last error after a
/// failed call, `instance` the `hInstApp` the call left. A failed call gives its
/// error code; an instance of 32 or less, or the cancel value, gives its message;
/// anything else is success.
pub fn runas_outcome(shell_ok: bool, last_error: u32, instance: usize) -> (r: Result<(), String>)
    ensures
        !shell_ok ==> (r matches Err(m) && m@ == runas_code_message(last_error as nat)),
        shell_ok && (instance <= 32 || instance == SE_ERR_CANCELLED) ==> (r matches Err(m) && m@
            == runas_message(instance as nat)),
        shell_ok && 32 < instance && instance != SE_ERR_CANCELLED ==> r is Ok,
{
    if !shell_ok {
        let mut v = chars_of("请求管理员权限失败 (错误码 ");
        append(&mut v, &u64_decimal(last_error as u64));
        append(&mut v, &chars_of(")"));
        return Err(string_of(&v));
    }
    if instance <= 32 || instance == SE_ERR_CANCELLED {
        let v = if instance == 0 {
            chars_of("系统资源不足，无法请求管理员权限")
        } else if instance == 2 {
            chars_of("未找到程序文件")
        } else if instance == 3 {
            chars_of("路径无效")
        } else if instance == 5 {
            chars_of("拒绝访问，无法以管理员启动")
        } else if instance == SE_ERR_CANCELLED {
            chars_of("已取消管理员权限请求（UAC）")
        } else {
            let mut w = chars_of("请求管理员权限失败 (错误码 ");
            append(&mut w, &u64_decimal(instance as u64));
            append(&mut w, &chars_of(")"));
            w
        };
        return Err(string_of(&v));
    }
    Ok(())
}

/// The message when the program's own path cannot be found, around the reason.
pub fn exe_path_error(err: &str) -> (r: String)
    ensures
        r@ == "获取程序路径失败: "@ + err@,
{
    let mut v = chars_of("获取程序路径失败: ");
    append(&mut v, &chars_of(err));
    string_of(&v)
}

} // verus!
