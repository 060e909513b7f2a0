use clx_music::elevation::{exe_path_error, runas_outcome};
use clx_music::elevation::{elevation_needed, is_elevated, restart_as_admin, startup_elevation_toast};

#[test]
fn failed_restart_is_reported_first() {
    let msg = startup_elevation_toast(false, true, Some("拒绝访问"));
    assert_eq!(
        msg.as_deref(),
        Some("已开启「以管理员启动」，但提升失败：拒绝访问。请在设置中点击「立即以管理员重启」。")
    );
}

#[test]
fn missing_rights_are_reported() {
    let msg = startup_elevation_toast(true, false, None);
    assert_eq!(
        msg.as_deref(),
        Some("已开启「以管理员启动」，但当前未获得管理员权限，自动演奏可能无效。请在设置中点击「立即以管理员重启」或在 UAC 中允许提升。")
    );
    assert_eq!(startup_elevation_toast(true, true, None), None);
    assert_eq!(startup_elevation_toast(false, false, None), None);
}

#[test]
fn restart_only_when_asked_and_missing() {
    assert!(elevation_needed(true, false));
    assert!(!elevation_needed(true, true));
    assert!(!elevation_needed(false, false));
}

#[test]
fn without_platform_support() {
    assert!(!is_elevated());
    assert_eq!(restart_as_admin(), Err("仅 Windows 支持以管理员身份重启".to_string()));
}

#[test]
fn runas_outcomes() {
    assert_eq!(runas_outcome(false, 1155, 0), Err("请求管理员权限失败 (错误码 1155)".to_string()));
    assert_eq!(runas_outcome(true, 0, 0), Err("系统资源不足，无法请求管理员权限".to_string()));
    assert_eq!(runas_outcome(true, 0, 2), Err("未找到程序文件".to_string()));
    assert_eq!(runas_outcome(true, 0, 3), Err("路径无效".to_string()));
    assert_eq!(runas_outcome(true, 0, 5), Err("拒绝访问，无法以管理员启动".to_string()));
    assert_eq!(runas_outcome(true, 0, 1223), Err("已取消管理员权限请求（UAC）".to_string()));
    assert_eq!(runas_outcome(true, 0, 31), Err("请求管理员权限失败 (错误码 31)".to_string()));
    assert_eq!(runas_outcome(true, 0, 33), Ok(()));
    assert_eq!(runas_outcome(true, 7, 0x7ff6_0000), Ok(()));
    assert_eq!(exe_path_error("gone"), "获取程序路径失败: gone");
}
